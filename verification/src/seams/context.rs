//! The context of a request: what is shown in place of long results, and what is
//! done when the context window runs full.

use crate::context_projection;
use crate::context_projection::ContextProjectionStoreView;
use crate::context_pruner;
use crate::context_pruner::{ModelVisibleSurface, ModelVisibleSurfaceView};
use crate::context_recovery;
use crate::context_recovery::{CompactDecision, OverflowDecision};
use crate::digest;
use crate::hooks::{EnhancedTurnHooksView, HookDecision};
use crate::response_items;
use crate::response_items::{ResponseItem, ResponseItemView};
use crate::runtime::{EnhancedSessionRuntime, EnhancedSessionRuntimeView};
use crate::search;
use crate::seams::session;
use crate::seams::session::SessionStep;
use crate::telemetry;
use crate::telemetry::{
    EnhancedEvent, EnhancedEventFields, EnhancedEventFieldsView, EnhancedEventKind,
    EnhancedEventView,
};
use crate::text;
use vstd::prelude::*;

verus! {

/// What is done about pressure on the context window.
#[derive(Debug, Clone, Copy, PartialEq, Eq, Structural)]
pub enum PressureSeam {
    DeferToUpstream,
    SkipNativeCompact,
    RunNativeCompact,
}

/// What is done about a request that overflowed.
#[derive(Debug, PartialEq, Eq)]
pub enum OverflowSeam {
    DeferToUpstream,
    Retry { pruned: Vec<ResponseItem> },
    NeedsNativeCompact { before: ModelVisibleSurface },
    PreserveOriginalError,
    Cancelled,
}

/// The model of [`OverflowSeam`].
#[verifier::ext_equal]
pub enum OverflowSeamView {
    DeferToUpstream,
    Retry { pruned: Seq<ResponseItemView> },
    NeedsNativeCompact { before: ModelVisibleSurfaceView },
    PreserveOriginalError,
    Cancelled,
}

impl View for OverflowSeam {
    type V = OverflowSeamView;

    open spec fn view(&self) -> OverflowSeamView {
        match self {
            OverflowSeam::DeferToUpstream => OverflowSeamView::DeferToUpstream,
            OverflowSeam::Retry { pruned } => OverflowSeamView::Retry {
                pruned: pruned.deep_view(),
            },
            OverflowSeam::NeedsNativeCompact { before } => OverflowSeamView::NeedsNativeCompact {
                before: before.deep_view(),
            },
            OverflowSeam::PreserveOriginalError => OverflowSeamView::PreserveOriginalError,
            OverflowSeam::Cancelled => OverflowSeamView::Cancelled,
        }
    }
}

impl DeepView for OverflowSeam {
    type V = OverflowSeamView;

    open spec fn deep_view(&self) -> OverflowSeamView {
        self@
    }
}

impl Clone for OverflowSeam {
    fn clone(&self) -> (r: Self)
        ensures
            r@ == self@,
    {
        match self {
            OverflowSeam::DeferToUpstream => OverflowSeam::DeferToUpstream,
            OverflowSeam::Retry { pruned } => OverflowSeam::Retry { pruned: pruned.clone() },
            OverflowSeam::NeedsNativeCompact { before } => OverflowSeam::NeedsNativeCompact {
                before: before.clone(),
            },
            OverflowSeam::PreserveOriginalError => OverflowSeam::PreserveOriginalError,
            OverflowSeam::Cancelled => OverflowSeam::Cancelled,
        }
    }
}

/// Whether the item at a position is an output of a call, with a text.
pub open spec fn answers_call(items: Seq<ResponseItemView>, call_id: Seq<char>) -> spec_fn(
    int,
) -> bool {
    |i: int| items[i].answered_call() == Some(call_id) && items[i].answer_text() is Some
}

/// The text of the last output of a call.
pub open spec fn shown_text(items: Seq<ResponseItemView>, call_id: Seq<char>) -> Option<Seq<char>> {
    let last = search::last_below(items.len(), answers_call(items, call_id));
    if last >= 0 {
        items[last].answer_text()
    } else {
        None
    }
}

/// The text of the last output of a call.
fn find_shown_text(items: &Vec<ResponseItem>, call_id: &str) -> (r: Option<String>)
    ensures
        r.deep_view() == shown_text(items.deep_view(), call_id@),
{
    let ghost all = items.deep_view();
    let ghost n = all.len();
    let ghost found = answers_call(all, call_id@);
    let mut left: usize = items.len();
    while left > 0
        invariant
            left <= items.len(),
            all == items.deep_view(),
            n == all.len(),
            found == answers_call(all, call_id@),
            forall|i: int| left <= i < n ==> !#[trigger] found(i),
        decreases left,
    {
        let i: usize = left - 1;
        assert(all[i as int] == items@[i as int]@);
        if let Some((id, t)) = response_items::output_identity_and_text(&items[i]) {
            if text::same_text(id.as_str(), call_id) {
                proof {
                    assert(found(i as int));
                    search::lemma_last_below_is(n, found, i as int);
                }
                return Some(t);
            }
        }
        assert(!found(i as int));
        left = i;
    }
    proof {
        search::lemma_last_below_is(n, found, -1);
    }
    None
}

/// The store once it is noted what an output is replaced by, if anything.
pub open spec fn remember_item(
    store: ContextProjectionStoreView,
    item: ResponseItemView,
    projected: Seq<ResponseItemView>,
) -> ContextProjectionStoreView {
    match (item.answered_call(), item.answer_text()) {
        (Some(call_id), Some(original)) => match shown_text(projected, call_id) {
            Some(replacement) => store.recorded(call_id, original, replacement),
            None => store,
        },
        _ => store,
    }
}

/// The store once it is noted what all outputs of a prompt are replaced by.
pub open spec fn remembered(
    store: ContextProjectionStoreView,
    original: Seq<ResponseItemView>,
    projected: Seq<ResponseItemView>,
) -> ContextProjectionStoreView
    decreases original.len(),
{
    if original.len() == 0 {
        store
    } else {
        remember_item(
            remembered(store, original.drop_last(), projected),
            original.last(),
            projected,
        )
    }
}

/// Notes what the outputs of a prompt are replaced by. The durable form of the
/// store has to be written again.
pub fn remember_context_projections(
    runtime: &mut EnhancedSessionRuntime,
    original: &Vec<ResponseItem>,
    projected: &Vec<ResponseItem>,
)
    ensures
        final(runtime)@ == session::step_session(
            old(runtime)@,
            SessionStep::Remember {
                original: original.deep_view(),
                projected: projected.deep_view(),
            },
        ),
        final(runtime)@ == (if old(runtime)@.hooks.features.deepseek_context_recovery {
            EnhancedSessionRuntimeView {
                context_projections: remembered(
                    old(runtime)@.context_projections,
                    original.deep_view(),
                    projected.deep_view(),
                ),
                ..old(runtime)@
            }
        } else {
            old(runtime)@
        }),
{
    proof {
        reveal(session::step_session);
    }
    let ghost start = runtime@;
    let ghost all = original.deep_view();
    if !runtime.hooks.features.deepseek_context_recovery {
        return;
    }
    let mut i: usize = 0;
    while i < original.len()
        invariant
            i <= original.len(),
            all == original.deep_view(),
            runtime@ == (EnhancedSessionRuntimeView {
                context_projections: remembered(
                    start.context_projections,
                    all.take(i as int),
                    projected.deep_view(),
                ),
                ..start
            }),
        decreases original.len() - i,
    {
        proof {
            assert(all.take(i + 1).drop_last() =~= all.take(i as int));
            assert(all.take(i + 1).last() == original@[i as int]@);
        }
        if let Some((call_id, t)) = response_items::output_identity_and_text(&original[i]) {
            if let Some(replacement) = find_shown_text(projected, call_id.as_str()) {
                runtime.context_projections.record(
                    call_id.as_str(),
                    t.as_str(),
                    replacement.as_str(),
                );
            }
        }
        i = i + 1;
    }
    assert(all.take(i as int) =~= all);
}

/// What is shown in place of an item's output, if anything.
pub open spec fn replacement_for(
    store: ContextProjectionStoreView,
    item: ResponseItemView,
) -> Option<Seq<char>> {
    match (item.answered_call(), item.answer_text()) {
        (Some(call_id), Some(t)) => store.replacement_of(call_id, t),
        _ => None,
    }
}

/// The item as it is shown.
pub open spec fn projected_item(
    store: ContextProjectionStoreView,
    item: ResponseItemView,
) -> ResponseItemView {
    match replacement_for(store, item) {
        Some(replacement) => item.with_text(replacement),
        None => item,
    }
}

/// The prompt as it is shown.
pub open spec fn projected_items(
    store: ContextProjectionStoreView,
    items: Seq<ResponseItemView>,
) -> Seq<ResponseItemView> {
    items.map_values(|item: ResponseItemView| projected_item(store, item))
}

/// Whether something is shown in place of the output at a position.
pub open spec fn is_projected(
    store: ContextProjectionStoreView,
    items: Seq<ResponseItemView>,
) -> spec_fn(int) -> bool {
    |i: int| replacement_for(store, items[i]) is Some
}

/// In place of how many outputs something is shown.
pub open spec fn projected_count(
    store: ContextProjectionStoreView,
    items: Seq<ResponseItemView>,
) -> nat
    decreases items.len(),
{
    if items.len() == 0 {
        0
    } else {
        projected_count(store, items.drop_last()) + (if replacement_for(
            store,
            items.last(),
        ) is Some {
            1nat
        } else {
            0nat
        })
    }
}

/// How many bytes shorter an output is as it is shown; none if it is longer.
pub open spec fn bytes_saved(store: ContextProjectionStoreView, item: ResponseItemView) -> nat {
    match replacement_for(store, item) {
        Some(replacement) => {
            let before = context_pruner::bytes(item.answer_text()->0);
            let after = context_pruner::bytes(replacement);
            if before > after {
                (before - after) as nat
            } else {
                0
            }
        },
        None => 0,
    }
}

/// How many bytes shorter all outputs are as they are shown.
pub open spec fn total_saved(store: ContextProjectionStoreView, items: Seq<ResponseItemView>) -> nat
    decreases items.len(),
{
    if items.len() == 0 {
        0
    } else {
        total_saved(store, items.drop_last()) + bytes_saved(store, items.last())
    }
}

/// A number that does not exceed `u64::MAX`.
pub open spec fn capped_u64(n: nat) -> u64 {
    if n <= u64::MAX {
        n as u64
    } else {
        u64::MAX
    }
}

/// The call of the first output in place of which something is shown.
pub open spec fn first_projected(
    store: ContextProjectionStoreView,
    items: Seq<ResponseItemView>,
) -> Option<Seq<char>> {
    let at = search::first_below(items.len(), is_projected(store, items));
    if at < items.len() {
        items[at].answered_call()
    } else {
        None
    }
}

/// The details of the report that something is shown in place of outputs.
pub open spec fn projection_fields(
    store: ContextProjectionStoreView,
    items: Seq<ResponseItemView>,
) -> EnhancedEventFieldsView {
    EnhancedEventFieldsView {
        call_id_hash: match first_projected(store, items) {
            Some(call_id) => Some(digest::text_digest(call_id)),
            None => None,
        },
        before_token_estimate: Some(response_items::surface_of(items).tokens() as u64),
        after_token_estimate: Some(
            response_items::surface_of(projected_items(store, items)).tokens() as u64,
        ),
        chars_removed: Some(capped_u64(total_saved(store, items))),
        ..EnhancedEventFieldsView::none()
    }
}

/// The runtime once a prompt is shown with replacements. The first use of
/// replacements that an earlier process left is reported as well.
pub open spec fn after_projection(
    runtime: EnhancedSessionRuntimeView,
    items: Seq<ResponseItemView>,
) -> EnhancedSessionRuntimeView {
    let store = runtime.context_projections;
    if !runtime.hooks.features.deepseek_context_recovery || projected_count(store, items) == 0 {
        runtime
    } else {
        let fields = projection_fields(store, items);
        let restored = store.restored_from_disk && !store.restoration_reported;
        let applied = telemetry::event(EnhancedEventKind::ContextProjectionApplied, fields);
        EnhancedSessionRuntimeView {
            context_projections: ContextProjectionStoreView {
                restoration_reported: store.restoration_reported || restored,
                ..store
            },
            telemetry: runtime.telemetry + (if restored {
                seq![
                    applied,
                    telemetry::event(EnhancedEventKind::ContextProjectionRestored, fields),
                ]
            } else {
                seq![applied]
            }),
            ..runtime
        }
    }
}

proof fn lemma_projected_count(store: ContextProjectionStoreView, items: Seq<ResponseItemView>)
    ensures
        projected_count(store, items) <= items.len(),
        projected_count(store, items) == 0 <==> first_projected(store, items) is None
            && search::first_below(items.len(), is_projected(store, items)) == items.len(),
    decreases items.len(),
{
    let p = is_projected(store, items);
    search::lemma_first_below(items.len(), p);
    if items.len() > 0 {
        let front = items.drop_last();
        let q = is_projected(store, front);
        lemma_projected_count(store, front);
        search::lemma_first_below(front.len(), q);
        let k = search::first_below(front.len(), q);
        assert forall|i: int| 0 <= i < front.len() implies #[trigger] p(i) == q(i) by {
            assert(front[i] == items[i]);
        }
        assert forall|i: int| 0 <= i < k implies !#[trigger] p(i) by {
            assert(!q(i));
        }
        if k < front.len() {
            assert(q(k));
            search::lemma_first_below_is(items.len(), p, k);
        } else if p(items.len() - 1) {
            search::lemma_first_below_is(items.len(), p, items.len() - 1);
        } else {
            assert forall|i: int| 0 <= i < items.len() implies !#[trigger] p(i) by {
                if i < front.len() {
                    assert(!q(i));
                }
            }
            search::lemma_first_below_is(items.len(), p, items.len() as int);
        }
    }
}

/// A prompt as the runtime shows it: with its replacements where recovery is on.
pub open spec fn shown_prompt(
    runtime: EnhancedSessionRuntimeView,
    items: Seq<ResponseItemView>,
) -> Seq<ResponseItemView> {
    if runtime.hooks.features.deepseek_context_recovery {
        projected_items(runtime.context_projections, items)
    } else {
        items
    }
}

/// Shows a prompt with its replacements: an output for which one is noted bears
/// that text, everything else stays as it is.
pub fn apply_context_projections(
    runtime: &mut EnhancedSessionRuntime,
    items: &mut Vec<ResponseItem>,
)
    ensures
        final(runtime)@ == session::step_session(
            old(runtime)@,
            SessionStep::Projection { items: old(items).deep_view() },
        ),
        final(runtime)@ == after_projection(old(runtime)@, old(items).deep_view()),
        final(items).deep_view() == shown_prompt(old(runtime)@, old(items).deep_view()),
{
    proof {
        reveal(session::step_session);
    }
    let ghost start = runtime@;
    let ghost store = start.context_projections;
    let ghost all = items.deep_view();
    let ghost shown = projected_items(store, all);
    if !runtime.hooks.features.deepseek_context_recovery {
        return;
    }
    let before_token_estimate: u64 = response_items::response_items_to_surface(
        items,
    ).estimated_tokens();
    let mut applied: u64 = 0;
    let mut chars_removed: u64 = 0;
    let mut first_call_id: Option<String> = None;
    let mut i: usize = 0;
    proof {
        lemma_projected_count(store, all.take(0));
    }
    while i < items.len()
        invariant
            i <= items.len(),
            items.len() == all.len(),
            runtime@ == start,
            store == start.context_projections,
            shown == projected_items(store, all),
            items.deep_view() =~= shown.take(i as int) + all.skip(i as int),
            applied as nat == projected_count(store, all.take(i as int)),
            applied <= i,
            chars_removed == capped_u64(total_saved(store, all.take(i as int))),
            first_call_id.deep_view() == first_projected(store, all.take(i as int)),
            applied > 0 <==> first_call_id is Some,
        decreases items.len() - i,
    {
        let ghost before = items.deep_view();
        proof {
            assert(before[i as int] == all[i as int]);
            assert(before[i as int] == items@[i as int]@);
            assert(all.take(i + 1).drop_last() =~= all.take(i as int));
            assert(all.take(i + 1).last() == all[i as int]);
            lemma_first_projected_step(store, all, i as int);
        }
        if let Some((call_id, t)) = response_items::output_identity_and_text(&items[i]) {
            let found = match runtime.context_projections.replacement(
                call_id.as_str(),
                t.as_str(),
            ) {
                Some(replacement) => Some(replacement.to_owned()),
                None => None,
            };
            if let Some(replacement) = found {
                applied = applied.saturating_add(1);
                let saved: usize = text::byte_len(t.as_str()).saturating_sub(
                    text::byte_len(replacement.as_str()),
                );
                chars_removed = chars_removed.saturating_add(saved as u64);
                if first_call_id.is_none() {
                    first_call_id = Some(call_id);
                }
                let mut item = items[i].clone();
                response_items::replace_output_text(&mut item, replacement);
                items.set(i, item);
                assert(items.deep_view() =~= before.update(i as int, item@));
            }
        }
        i = i + 1;
        assert(items.deep_view() =~= shown.take(i as int) + all.skip(i as int));
    }
    assert(all.take(i as int) =~= all);
    assert(items.deep_view() =~= shown);
    let stats = runtime.context_projections.note_application(applied, chars_removed);
    if stats.applied == 0 {
        return;
    }
    let after_token_estimate: u64 = response_items::response_items_to_surface(
        items,
    ).estimated_tokens();
    let call_id_hash = match &first_call_id {
        Some(call_id) => Some(telemetry::hash_identifier(call_id.as_str())),
        None => None,
    };
    let fields = EnhancedEventFields {
        call_id_hash,
        before_token_estimate: Some(before_token_estimate),
        after_token_estimate: Some(after_token_estimate),
        chars_removed: Some(stats.chars_removed),
        ..EnhancedEventFields::default()
    };
    assert(fields@ == projection_fields(store, all));
    runtime.telemetry.emit(
        EnhancedEvent::new(EnhancedEventKind::ContextProjectionApplied, fields.clone()),
    );
    if stats.restored {
        runtime.telemetry.emit(
            EnhancedEvent::new(EnhancedEventKind::ContextProjectionRestored, fields),
        );
    }
    assert(runtime@.telemetry =~= after_projection(start, all).telemetry);
}

proof fn lemma_first_projected_step(
    store: ContextProjectionStoreView,
    items: Seq<ResponseItemView>,
    i: int,
)
    requires
        0 <= i < items.len(),
    ensures
        first_projected(store, items.take(i + 1)) == (if projected_count(store, items.take(i))
            > 0 {
            first_projected(store, items.take(i))
        } else if replacement_for(store, items[i]) is Some {
            items[i].answered_call()
        } else {
            None
        }),
        projected_count(store, items.take(i)) > 0 <==> first_projected(
            store,
            items.take(i),
        ) is Some,
{
    let front = items.take(i);
    let next = items.take(i + 1);
    let q = is_projected(store, front);
    let p = is_projected(store, next);
    lemma_projected_count(store, front);
    search::lemma_first_below(i as nat, q);
    let k = search::first_below(i as nat, q);
    assert forall|j: int| 0 <= j < i implies #[trigger] p(j) == q(j) by {
        assert(front[j] == next[j]);
    }
    assert forall|j: int| 0 <= j < k implies !#[trigger] p(j) by {
        assert(!q(j));
    }
    assert(next[i] == items[i]);
    if k < i {
        assert(q(k));
        search::lemma_first_below_is((i + 1) as nat, p, k);
        assert(front[k] == next[k]);
    } else if p(i) {
        search::lemma_first_below_is((i + 1) as nat, p, i);
    } else {
        assert forall|j: int| 0 <= j < i + 1 implies !#[trigger] p(j) by {
            if j < i {
                assert(!q(j));
            }
        }
        search::lemma_first_below_is((i + 1) as nat, p, i + 1);
    }
}

/// The report that all replacements are forgotten.
pub open spec fn cleared_event() -> EnhancedEventView {
    telemetry::event(
        EnhancedEventKind::ContextProjectionCleared,
        EnhancedEventFieldsView::none(),
    )
}

/// Forgets all replacements, for the history was compacted. The durable form of
/// the store has to be written again.
pub fn clear_context_projections_after_compaction(runtime: &mut EnhancedSessionRuntime)
    ensures
        final(runtime)@ == session::step_session(old(runtime)@, SessionStep::Compaction),
        final(runtime)@ == (if old(runtime)@.hooks.features.deepseek_context_recovery {
            EnhancedSessionRuntimeView {
                context_projections: old(runtime)@.context_projections.cleared(),
                telemetry: if old(runtime)@.context_projections.records.len() > 0 {
                    old(runtime)@.telemetry.push(cleared_event())
                } else {
                    old(runtime)@.telemetry
                },
                ..old(runtime)@
            }
        } else {
            old(runtime)@
        }),
{
    proof {
        reveal(session::step_session);
    }
    if !runtime.hooks.features.deepseek_context_recovery {
        return;
    }
    if !runtime.context_projections.clear_after_compaction() {
        return;
    }
    runtime.telemetry.emit(
        EnhancedEvent::new(
            EnhancedEventKind::ContextProjectionCleared,
            EnhancedEventFields::default(),
        ),
    );
}

/// The plan for the pressure that a prompt puts on the context window.
pub open spec fn prompt_plan(
    runtime: EnhancedSessionRuntimeView,
    items: Seq<ResponseItemView>,
    trigger_tokens: u64,
    compact_threshold_tokens: u64,
) -> context_recovery::PressurePlanView {
    context_recovery::pressure_plan(
        response_items::surface_of(items),
        runtime.hooks.prune_policy,
        trigger_tokens,
        compact_threshold_tokens,
    )
}

/// Whether the runtime looks after the pressure on the context window.
pub open spec fn handles_pressure(
    runtime: EnhancedSessionRuntimeView,
    context_window_tokens: u64,
) -> bool {
    context_window_tokens > 0 && runtime.hooks.features.deepseek_context_recovery
}

/// The prompt once it was pruned.
pub open spec fn relieved_items(
    runtime: EnhancedSessionRuntimeView,
    items: Seq<ResponseItemView>,
    trigger_tokens: u64,
    compact_threshold_tokens: u64,
) -> Seq<ResponseItemView> {
    let prune = prompt_plan(runtime, items, trigger_tokens, compact_threshold_tokens).prune;
    if prune.rewritten {
        items.map_values(|item: ResponseItemView| item.as_on_surface(prune.surface.items))
    } else {
        items
    }
}

/// The runtime once a prompt was pruned. It remembers what it cut.
pub open spec fn after_pressure(
    runtime: EnhancedSessionRuntimeView,
    items: Seq<ResponseItemView>,
    trigger_tokens: u64,
    compact_threshold_tokens: u64,
) -> EnhancedSessionRuntimeView {
    let plan = prompt_plan(runtime, items, trigger_tokens, compact_threshold_tokens);
    EnhancedSessionRuntimeView {
        telemetry: runtime.telemetry + plan.events,
        context_projections: if plan.prune.rewritten {
            remembered(
                runtime.context_projections,
                items,
                relieved_items(runtime, items, trigger_tokens, compact_threshold_tokens),
            )
        } else {
            runtime.context_projections
        },
        last_surface: Some(plan.prune.surface),
        ..runtime
    }
}

/// Relieves the pressure that a prompt puts on the context window, and decides
/// whether the native compaction has to run. The window is under pressure from
/// `trigger_tokens` on; compaction is due at `compact_threshold_tokens`.
pub fn apply_pressure_to_prompt(
    runtime: &mut EnhancedSessionRuntime,
    items: &mut Vec<ResponseItem>,
    context_window_tokens: u64,
    trigger_tokens: u64,
    compact_threshold_tokens: u64,
) -> (r: PressureSeam)
    ensures
        final(runtime)@ == session::step_session(
            old(runtime)@,
            SessionStep::Pressure {
                items: old(items).deep_view(),
                context_window_tokens,
                trigger_tokens,
                compact_threshold_tokens,
            },
        ),
        !handles_pressure(old(runtime)@, context_window_tokens) ==> r
            == PressureSeam::DeferToUpstream && final(runtime)@ == old(runtime)@
            && final(items).deep_view() == old(items).deep_view(),
        handles_pressure(old(runtime)@, context_window_tokens) ==> ({
            &&& r == (match prompt_plan(
                old(runtime)@,
                old(items).deep_view(),
                trigger_tokens,
                compact_threshold_tokens,
            ).compact {
                CompactDecision::Skip => PressureSeam::SkipNativeCompact,
                CompactDecision::RunNativeCodexLocalCompact => PressureSeam::RunNativeCompact,
            })
            &&& final(runtime)@ == after_pressure(
                old(runtime)@,
                old(items).deep_view(),
                trigger_tokens,
                compact_threshold_tokens,
            )
            &&& final(items).deep_view() == relieved_items(
                old(runtime)@,
                old(items).deep_view(),
                trigger_tokens,
                compact_threshold_tokens,
            )
        }),
{
    proof {
        reveal(session::step_session);
    }
    if context_window_tokens == 0 {
        return PressureSeam::DeferToUpstream;
    }
    let original = items.clone();
    let surface = response_items::response_items_to_surface(items);
    let decision = runtime.hooks.plan_pressure(
        &surface,
        trigger_tokens,
        compact_threshold_tokens,
        &mut runtime.telemetry,
    );
    match decision {
        HookDecision::DeferToUpstream => PressureSeam::DeferToUpstream,
        HookDecision::Handled(plan) => {
            if plan.prune.rewritten {
                response_items::apply_surface_to_items(items, &plan.prune.surface);
                remember_context_projections(runtime, &original, items);
            }
            runtime.last_surface = Some(plan.prune.surface);
            match plan.compact {
                CompactDecision::Skip => PressureSeam::SkipNativeCompact,
                CompactDecision::RunNativeCodexLocalCompact => PressureSeam::RunNativeCompact,
            }
        },
    }
}

/// The surface of a prompt, which counts as a new generation where it is shorter
/// than what was sent before.
pub open spec fn advanced_surface(
    before: ModelVisibleSurfaceView,
    after_items: Seq<ResponseItemView>,
) -> ModelVisibleSurfaceView {
    let after = response_items::surface_of(after_items);
    if context_pruner::capped(context_pruner::items_bytes(after.items)) < context_pruner::capped(
        context_pruner::items_bytes(before.items),
    ) {
        ModelVisibleSurfaceView {
            generation: if before.generation < u64::MAX {
                (before.generation + 1) as u64
            } else {
                u64::MAX
            },
            ..after
        }
    } else {
        after
    }
}

/// The plan for a request that overflowed.
pub open spec fn retry_plan(
    runtime: EnhancedSessionRuntimeView,
    before: ModelVisibleSurfaceView,
    after_items: Seq<ResponseItemView>,
    cancelled: bool,
) -> context_recovery::OverflowPlanView {
    context_recovery::overflow_plan(
        runtime.hooks.attempt(before.generation, cancelled),
        before,
        advanced_surface(before, after_items),
    )
}

/// The runtime once it was decided whether a request is sent again.
pub open spec fn after_retry(
    runtime: EnhancedSessionRuntimeView,
    before: ModelVisibleSurfaceView,
    after_items: Seq<ResponseItemView>,
    cancelled: bool,
) -> EnhancedSessionRuntimeView {
    let plan = retry_plan(runtime, before, after_items, cancelled);
    if runtime.hooks.features.deepseek_context_recovery {
        EnhancedSessionRuntimeView {
            hooks: EnhancedTurnHooksView {
                overflow_retries_used: match plan.decision {
                    OverflowDecision::Retry { retry_index } => retry_index,
                    _ => runtime.hooks.overflow_retries_used,
                },
                ..runtime.hooks
            },
            telemetry: runtime.telemetry + plan.events,
            ..runtime
        }
    } else {
        runtime
    }
}

/// Whether a request that overflowed is sent again, with the items that it would
/// have now.
pub open spec fn retry_decision(
    runtime: EnhancedSessionRuntimeView,
    before: ModelVisibleSurfaceView,
    after_items: Seq<ResponseItemView>,
    cancelled: bool,
) -> OverflowSeamView {
    if runtime.hooks.features.deepseek_context_recovery {
        match retry_plan(runtime, before, after_items, cancelled).decision {
            OverflowDecision::Retry { .. } => OverflowSeamView::Retry { pruned: after_items },
            OverflowDecision::PreserveOriginalError => OverflowSeamView::PreserveOriginalError,
            OverflowDecision::Cancelled => OverflowSeamView::Cancelled,
        }
    } else {
        OverflowSeamView::DeferToUpstream
    }
}

/// Decides whether a request that overflowed is sent again. `before` is the
/// surface that was sent, `after_items` the prompt that would be sent now.
pub fn decide_overflow_retry(
    runtime: &mut EnhancedSessionRuntime,
    before: &ModelVisibleSurface,
    after_items: &Vec<ResponseItem>,
    cancelled: bool,
) -> (r: OverflowSeam)
    ensures
        final(runtime)@ == session::step_session(
            old(runtime)@,
            SessionStep::RetryDecision {
                before: before@,
                items: after_items.deep_view(),
                cancelled,
            },
        ),
        r@ == retry_decision(old(runtime)@, before@, after_items.deep_view(), cancelled),
        final(runtime)@ == after_retry(
            old(runtime)@,
            before@,
            after_items.deep_view(),
            cancelled,
        ),
{
    proof {
        reveal(session::step_session);
    }
    let mut after = response_items::response_items_to_surface(after_items);
    if after.byte_count() < before.byte_count() && after.generation <= before.generation {
        after.generation = before.generation.saturating_add(1);
    }
    assert(after@ == advanced_surface(before@, after_items.deep_view()));
    let decision = runtime.hooks.plan_overflow(before, &after, cancelled, &mut runtime.telemetry);
    match decision {
        HookDecision::DeferToUpstream => OverflowSeam::DeferToUpstream,
        HookDecision::Handled(plan) => match plan.decision {
            OverflowDecision::Retry { .. } => OverflowSeam::Retry { pruned: after_items.clone() },
            OverflowDecision::PreserveOriginalError => OverflowSeam::PreserveOriginalError,
            OverflowDecision::Cancelled => OverflowSeam::Cancelled,
        },
    }
}

/// What is done about a request that overflowed: its prompt is pruned whatever
/// the estimate says, and it is sent again if that was enough.
pub open spec fn overflow_answer(
    runtime: EnhancedSessionRuntimeView,
    sent_items: Seq<ResponseItemView>,
    forced_trigger_tokens: u64,
    context_window_tokens: u64,
    cancelled: bool,
) -> OverflowSeamView {
    let before = response_items::surface_of(sent_items);
    let plan = prompt_plan(runtime, sent_items, forced_trigger_tokens, context_window_tokens);
    if !runtime.hooks.features.deepseek_context_recovery {
        OverflowSeamView::DeferToUpstream
    } else if plan.compact == CompactDecision::Skip {
        retry_decision(
            after_pressure(runtime, sent_items, forced_trigger_tokens, context_window_tokens),
            before,
            relieved_items(runtime, sent_items, forced_trigger_tokens, context_window_tokens),
            cancelled,
        )
    } else {
        OverflowSeamView::NeedsNativeCompact { before }
    }
}

/// The runtime once something was done about a request that overflowed.
pub open spec fn after_overflow(
    runtime: EnhancedSessionRuntimeView,
    sent_items: Seq<ResponseItemView>,
    forced_trigger_tokens: u64,
    context_window_tokens: u64,
    cancelled: bool,
) -> EnhancedSessionRuntimeView {
    let before = response_items::surface_of(sent_items);
    let plan = prompt_plan(runtime, sent_items, forced_trigger_tokens, context_window_tokens);
    let relieved = after_pressure(
        runtime,
        sent_items,
        forced_trigger_tokens,
        context_window_tokens,
    );
    if !runtime.hooks.features.deepseek_context_recovery {
        runtime
    } else if plan.compact == CompactDecision::Skip {
        after_retry(
            relieved,
            before,
            relieved_items(runtime, sent_items, forced_trigger_tokens, context_window_tokens),
            cancelled,
        )
    } else {
        relieved
    }
}

/// Decides what is done about a request that overflowed. The provider's word
/// outweighs the local estimate, so the prompt is pruned as if the window were a
/// single token wide: `forced_trigger_tokens` is the trigger of such a window.
/// Whether compaction is due goes by the real window.
pub fn plan_overflow_for_prompt(
    runtime: &mut EnhancedSessionRuntime,
    sent_items: &Vec<ResponseItem>,
    forced_trigger_tokens: u64,
    context_window_tokens: u64,
    cancelled: bool,
) -> (r: OverflowSeam)
    ensures
        final(runtime)@ == session::step_session(
            old(runtime)@,
            SessionStep::Overflow {
                items: sent_items.deep_view(),
                forced_trigger_tokens,
                context_window_tokens,
                cancelled,
            },
        ),
        r@ == overflow_answer(
            old(runtime)@,
            sent_items.deep_view(),
            forced_trigger_tokens,
            context_window_tokens,
            cancelled,
        ),
        final(runtime)@ == after_overflow(
            old(runtime)@,
            sent_items.deep_view(),
            forced_trigger_tokens,
            context_window_tokens,
            cancelled,
        ),
{
    proof {
        reveal(session::step_session);
    }
    let before = response_items::response_items_to_surface(sent_items);
    let mut candidate = sent_items.clone();
    match apply_pressure_to_prompt(
        runtime,
        &mut candidate,
        1,
        forced_trigger_tokens,
        context_window_tokens,
    ) {
        PressureSeam::DeferToUpstream => OverflowSeam::DeferToUpstream,
        PressureSeam::SkipNativeCompact => decide_overflow_retry(
            runtime,
            &before,
            &candidate,
            cancelled,
        ),
        PressureSeam::RunNativeCompact => OverflowSeam::NeedsNativeCompact { before },
    }
}

/// Whether the store neither replaces a text of a call nor shows it in place of
/// another.
pub open spec fn knows_nothing_of(
    store: ContextProjectionStoreView,
    call_id: Seq<char>,
    t: Seq<char>,
) -> bool {
    forall|k: int|
        0 <= k < store.records.len() && (#[trigger] store.records[k]).call_id == call_id
            && store.records[k].generation == store.generation
            ==> store.records[k].original_sha256 != digest::text_digest(t) && digest::text_digest(
            store.records[k].projected_text,
        ) != digest::text_digest(t)
}

proof fn lemma_record_of_other_call(
    store: ContextProjectionStoreView,
    call_id: Seq<char>,
    original: Seq<char>,
    replacement: Seq<char>,
    other: Seq<char>,
    t: Seq<char>,
)
    requires
        knows_nothing_of(store, other, t),
        call_id != other,
    ensures
        knows_nothing_of(store.recorded(call_id, original, replacement), other, t),
{
    let sha = digest::text_digest(original);
    let n = store.records.len();
    search::lemma_first_below(n, store.direct(call_id, sha));
    search::lemma_first_below(n, store.chained(call_id, sha, store.projected_digests()));
    let after = store.recorded(call_id, original, replacement);
    assert forall|k: int|
        0 <= k < after.records.len() && (#[trigger] after.records[k]).call_id == other
            && after.records[k].generation == after.generation implies
        after.records[k].original_sha256 != digest::text_digest(t) && digest::text_digest(
        after.records[k].projected_text,
    ) != digest::text_digest(t) by {
        assert(store.records[k] == after.records[k]);
    }
}

proof fn lemma_nothing_known(store: ContextProjectionStoreView, call_id: Seq<char>, t: Seq<char>)
    requires
        knows_nothing_of(store, call_id, t),
    ensures
        store.replacement_of(call_id, t) is None,
        search::first_below(
            store.records.len(),
            store.direct(call_id, digest::text_digest(t)),
        ) == store.records.len(),
        search::first_below(
            store.records.len(),
            store.chained(call_id, digest::text_digest(t), store.projected_digests()),
        ) == store.records.len(),
{
    let n = store.records.len();
    let sha = digest::text_digest(t);
    let p = store.direct(call_id, sha);
    let q = store.chained(call_id, sha, store.projected_digests());
    assert forall|i: int| 0 <= i < n implies !#[trigger] p(i) && !q(i) by {
        let record = store.records[i];
    }
    search::lemma_last_below_is(n, p, -1);
    search::lemma_first_below_is(n, p, n as int);
    search::lemma_first_below_is(n, q, n as int);
}

/// Whether the output at a position is the only one of its call.
pub open spec fn is_only_output(items: Seq<ResponseItemView>, i: int) -> bool {
    forall|j: int|
        0 <= j < items.len() && j != i ==> (#[trigger] items[j]).answered_call()
            != items[i].answered_call()
}

proof fn lemma_shown_for_one_stays(
    store: ContextProjectionStoreView,
    call_id: Seq<char>,
    original: Seq<char>,
    replacement: Seq<char>,
    other: Seq<char>,
    t: Seq<char>,
)
    requires
        store.shown_for_one(other, t),
        call_id != other,
    ensures
        store.recorded(call_id, original, replacement).shown_for_one(other, t),
{
    let n = store.records.len();
    let sha = digest::text_digest(original);
    search::lemma_first_below(n, store.direct(call_id, sha));
    search::lemma_first_below(n, store.chained(call_id, sha, store.projected_digests()));
    let after = store.recorded(call_id, original, replacement);
    let key = digest::text_digest(t);
    let before_shown = store.chained(other, key, store.projected_digests());
    let after_shown = after.chained(other, key, after.projected_digests());
    assert forall|k: int| 0 <= k < after.records.len() && #[trigger] after_shown(k) implies k < n
        && before_shown(k) by {
        assert(after.records[k].call_id == other);
        assert(store.records[k] == after.records[k]);
    }
}

/// What the store holds of one call while the outputs of a prompt are noted, up to
/// position `n`. Only the output of that call, at position `i`, makes a difference.
proof fn lemma_remembered_around(
    store: ContextProjectionStoreView,
    original: Seq<ResponseItemView>,
    projected: Seq<ResponseItemView>,
    i: int,
    n: int,
    x: Seq<char>,
)
    requires
        store.distinct(),
        0 <= i < original.len(),
        0 <= n <= original.len(),
        original[i].answered_call() is Some,
        original[i].answer_text() is Some,
        is_only_output(original, i),
        shown_text(projected, original[i].answered_call()->0) is Some,
    ensures
        ({
            let call_id = original[i].answered_call()->0;
            let t = original[i].answer_text()->0;
            let before = remembered(store, original.take(i), projected);
            let after = remembered(store, original.take(n), projected);
            &&& after.distinct()
            &&& n <= i ==> after.replacement_of(call_id, x) == store.replacement_of(call_id, x)
            &&& n <= i && knows_nothing_of(store, call_id, t) ==> knows_nothing_of(
                after,
                call_id,
                t,
            )
            &&& n <= i && store.shown_for_one(call_id, t) ==> after.shown_for_one(call_id, t)
            &&& n > i ==> after.replacement_of(call_id, x) == before.recorded(
                call_id,
                t,
                shown_text(projected, call_id)->0,
            ).replacement_of(call_id, x)
        }),
    decreases n,
{
    let call_id = original[i].answered_call()->0;
    let t = original[i].answer_text()->0;
    if n == 0 {
        assert(original.take(0) =~= seq![]);
    } else {
        lemma_remembered_around(store, original, projected, i, n - 1, x);
        let earlier = remembered(store, original.take(n - 1), projected);
        let item = original[n - 1];
        assert(original.take(n).drop_last() =~= original.take(n - 1));
        assert(original.take(n).last() == item);
        match (item.answered_call(), item.answer_text()) {
            (Some(id), Some(text)) => match shown_text(projected, id) {
                Some(shown) => {
                    context_projection::law_replacements_stay_distinct(
                        earlier,
                        id,
                        text,
                        shown,
                    );
                    if n - 1 != i {
                        assert(id != call_id);
                        context_projection::law_recording_touches_one_call(
                            earlier,
                            id,
                            text,
                            shown,
                            call_id,
                            x,
                        );
                        if knows_nothing_of(earlier, call_id, t) {
                            lemma_record_of_other_call(earlier, id, text, shown, call_id, t);
                        }
                        if earlier.shown_for_one(call_id, t) {
                            lemma_shown_for_one_stays(earlier, id, text, shown, call_id, t);
                        }
                    }
                },
                None => {},
            },
            _ => {},
        }
    }
}

/// Whether a text of a call that is pruned to another is shown as that other from
/// then on: because the store has had nothing to do with it, or because it replaces
/// it already and now does so by something else.
pub open spec fn takes_up(
    store: ContextProjectionStoreView,
    call_id: Seq<char>,
    t: Seq<char>,
    pruned: Seq<char>,
) -> bool {
    ||| knows_nothing_of(store, call_id, t)
    ||| store.replacement_of(call_id, t) is Some && pruned != t
}

/// What was pruned once is shown pruned ever after: wherever an output comes up
/// again that a pruned prompt held, the store gives it the text that it had in
/// that prompt. The output has to be the only one of its call, and the store must
/// either have had nothing to do with its text before, or have replaced it.
pub proof fn law_pruned_output_is_shown_again(
    store: ContextProjectionStoreView,
    original: Seq<ResponseItemView>,
    projected: Seq<ResponseItemView>,
    i: int,
)
    requires
        store.distinct(),
        0 <= i < original.len(),
        original[i].answered_call() is Some,
        original[i].answer_text() is Some,
        is_only_output(original, i),
        shown_text(projected, original[i].answered_call()->0) matches Some(pruned) && takes_up(
            store,
            original[i].answered_call()->0,
            original[i].answer_text()->0,
            pruned,
        ),
    ensures
        projected_item(remembered(store, original, projected), original[i]).answer_text()
            == shown_text(projected, original[i].answered_call()->0),
{
    let call_id = original[i].answered_call()->0;
    let t = original[i].answer_text()->0;
    let pruned = shown_text(projected, call_id)->0;
    let before = remembered(store, original.take(i), projected);
    lemma_remembered_around(store, original, projected, i, i, t);
    lemma_remembered_around(store, original, projected, i, original.len() as int, t);
    assert(original.take(original.len() as int) =~= original);
    if knows_nothing_of(store, call_id, t) {
        lemma_nothing_known(before, call_id, t);
    } else {
        let found = before.direct(call_id, digest::text_digest(t));
        search::lemma_last_below(before.records.len(), found);
        search::lemma_first_below(before.records.len(), found);
        assert(found(search::last_below(before.records.len(), found)));
    }
    if pruned != t {
        context_projection::law_recorded_replacement_is_found(before, call_id, t, pruned);
    }
}

/// A second pruning reaches the history. Where a text of a call is shown cut, and a
/// prompt that holds what is shown is pruned, every item with the whole text is from
/// then on shown as the pruned prompt had it. The output has to be the only one of
/// its call; the store must not replace the first cut itself, and no other text of
/// the call may be shown as the first cut is.
pub proof fn law_pruned_cut_is_shown_for_the_whole(
    store: ContextProjectionStoreView,
    original: Seq<ResponseItemView>,
    projected: Seq<ResponseItemView>,
    i: int,
    whole: ResponseItemView,
)
    requires
        store.distinct(),
        0 <= i < original.len(),
        original[i].answered_call() is Some,
        original[i].answer_text() is Some,
        is_only_output(original, i),
        whole.answered_call() == original[i].answered_call(),
        projected_item(store, whole).answer_text() == original[i].answer_text(),
        replacement_for(store, whole) is Some,
        replacement_for(store, original[i]) is None,
        store.shown_for_one(original[i].answered_call()->0, original[i].answer_text()->0),
        shown_text(projected, original[i].answered_call()->0) is Some,
    ensures
        projected_item(remembered(store, original, projected), whole).answer_text() == shown_text(
            projected,
            original[i].answered_call()->0,
        ),
{
    let call_id = original[i].answered_call()->0;
    let cut = original[i].answer_text()->0;
    let text = whole.answer_text()->0;
    let pruned = shown_text(projected, call_id)->0;
    let before = remembered(store, original.take(i), projected);
    lemma_remembered_around(store, original, projected, i, i, cut);
    lemma_remembered_around(store, original, projected, i, i, text);
    lemma_remembered_around(store, original, projected, i, original.len() as int, text);
    assert(original.take(original.len() as int) =~= original);
    if pruned != cut {
        context_projection::law_second_cut_reaches_the_original(
            before,
            call_id,
            text,
            cut,
            pruned,
        );
    }
}

proof fn lemma_relieved_text_is_shown(
    runtime: EnhancedSessionRuntimeView,
    items: Seq<ResponseItemView>,
    trigger_tokens: u64,
    compact_threshold_tokens: u64,
    i: int,
)
    requires
        0 <= i < items.len(),
        items[i].answered_call() is Some,
        items[i].answer_text() is Some,
        is_only_output(items, i),
    ensures
        ({
            let relieved = relieved_items(
                runtime,
                items,
                trigger_tokens,
                compact_threshold_tokens,
            );
            &&& relieved[i].answer_text() is Some
            &&& shown_text(relieved, items[i].answered_call()->0) == relieved[i].answer_text()
        }),
{
    let call_id = items[i].answered_call()->0;
    let relieved = relieved_items(runtime, items, trigger_tokens, compact_threshold_tokens);
    let found = answers_call(relieved, call_id);
    assert forall|j: int| 0 <= j < items.len() implies (
    #[trigger] relieved[j]).answered_call() == items[j].answered_call() by {}
    assert(found(i));
    assert forall|j: int| i < j < relieved.len() implies !#[trigger] found(j) by {
        assert(relieved[j].answered_call() == items[j].answered_call());
    }
    search::lemma_last_below_is(relieved.len(), found, i);
}

/// After pressure was relieved, an output is shown with the text that it had in
/// the pruned prompt, wherever it comes up again. The store must either have had
/// nothing to do with its text before, or have replaced it.
pub proof fn law_relieved_prompt_is_shown_again(
    runtime: EnhancedSessionRuntimeView,
    items: Seq<ResponseItemView>,
    trigger_tokens: u64,
    compact_threshold_tokens: u64,
    i: int,
)
    requires
        runtime.context_projections.distinct(),
        0 <= i < items.len(),
        items[i].answered_call() is Some,
        items[i].answer_text() is Some,
        is_only_output(items, i),
        relieved_items(
            runtime,
            items,
            trigger_tokens,
            compact_threshold_tokens,
        )[i].answer_text() matches Some(pruned) && takes_up(
            runtime.context_projections,
            items[i].answered_call()->0,
            items[i].answer_text()->0,
            pruned,
        ),
    ensures
        projected_item(
            after_pressure(
                runtime,
                items,
                trigger_tokens,
                compact_threshold_tokens,
            ).context_projections,
            items[i],
        ).answer_text() == relieved_items(
            runtime,
            items,
            trigger_tokens,
            compact_threshold_tokens,
        )[i].answer_text(),
{
    let store = runtime.context_projections;
    let relieved = relieved_items(runtime, items, trigger_tokens, compact_threshold_tokens);
    lemma_relieved_text_is_shown(runtime, items, trigger_tokens, compact_threshold_tokens, i);
    if prompt_plan(runtime, items, trigger_tokens, compact_threshold_tokens).prune.rewritten {
        law_pruned_output_is_shown_again(store, items, relieved, i);
    } else {
        lemma_nothing_known(store, items[i].answered_call()->0, items[i].answer_text()->0);
    }
}

/// Pressure that is relieved a second time reaches the history: where a prompt shows
/// a text of a call cut, and relief changes what is shown, every item with the whole
/// text is from then on shown with the text that the relieved prompt has. The output
/// has to be the only one of its call; the store must not replace the first cut
/// itself, and no other text of the call may be shown as the first cut is.
pub proof fn law_second_relief_is_shown_for_the_whole(
    runtime: EnhancedSessionRuntimeView,
    items: Seq<ResponseItemView>,
    trigger_tokens: u64,
    compact_threshold_tokens: u64,
    i: int,
    whole: ResponseItemView,
)
    requires
        runtime.context_projections.distinct(),
        0 <= i < items.len(),
        items[i].answered_call() is Some,
        items[i].answer_text() is Some,
        is_only_output(items, i),
        whole.answered_call() == items[i].answered_call(),
        projected_item(runtime.context_projections, whole).answer_text()
            == items[i].answer_text(),
        replacement_for(runtime.context_projections, whole) is Some,
        replacement_for(runtime.context_projections, items[i]) is None,
        runtime.context_projections.shown_for_one(
            items[i].answered_call()->0,
            items[i].answer_text()->0,
        ),
    ensures
        projected_item(
            after_pressure(
                runtime,
                items,
                trigger_tokens,
                compact_threshold_tokens,
            ).context_projections,
            whole,
        ).answer_text() == relieved_items(
            runtime,
            items,
            trigger_tokens,
            compact_threshold_tokens,
        )[i].answer_text(),
{
    let relieved = relieved_items(runtime, items, trigger_tokens, compact_threshold_tokens);
    lemma_relieved_text_is_shown(runtime, items, trigger_tokens, compact_threshold_tokens, i);
    if prompt_plan(runtime, items, trigger_tokens, compact_threshold_tokens).prune.rewritten {
        law_pruned_cut_is_shown_for_the_whole(
            runtime.context_projections,
            items,
            relieved,
            i,
            whole,
        );
    }
}

/// Showing a prompt with its replacements loses nothing: every item is still
/// there, in its place, and only the texts of outputs may differ.
pub proof fn law_projection_keeps_the_prompt(
    store: ContextProjectionStoreView,
    items: Seq<ResponseItemView>,
    i: int,
)
    requires
        0 <= i < items.len(),
    ensures
        projected_items(store, items).len() == items.len(),
        projected_items(store, items)[i].answered_call() == items[i].answered_call(),
        items[i].answer_text() is None ==> projected_items(store, items)[i] == items[i],
        replacement_for(store, items[i]) is None ==> projected_items(store, items)[i] == items[i],
{
}

/// A request that overflowed is sent again only if it became shorter, and not a
/// second time unless the budget was restored meanwhile.
pub proof fn law_retry_makes_progress(
    runtime: EnhancedSessionRuntimeView,
    before: ModelVisibleSurfaceView,
    after_items: Seq<ResponseItemView>,
    cancelled: bool,
    later_before: ModelVisibleSurfaceView,
    later_items: Seq<ResponseItemView>,
)
    requires
        retry_decision(runtime, before, after_items, cancelled) is Retry,
    ensures
        !cancelled,
        context_pruner::capped(
            context_pruner::items_bytes(response_items::surface_of(after_items).items),
        ) < context_pruner::capped(context_pruner::items_bytes(before.items)),
        !(retry_decision(
            after_retry(runtime, before, after_items, cancelled),
            later_before,
            later_items,
            false,
        ) is Retry),
{
}

/// Nothing is controlled through the telemetry: whatever events are on record, a
/// prompt is pruned, shown and sent again the same.
pub proof fn law_telemetry_controls_no_prompt(
    runtime: EnhancedSessionRuntimeView,
    events: Seq<EnhancedEventView>,
    items: Seq<ResponseItemView>,
    trigger_tokens: u64,
    compact_threshold_tokens: u64,
    cancelled: bool,
)
    ensures
        ({
            let other = EnhancedSessionRuntimeView { telemetry: events, ..runtime };
            &&& relieved_items(other, items, trigger_tokens, compact_threshold_tokens)
                == relieved_items(runtime, items, trigger_tokens, compact_threshold_tokens)
            &&& after_pressure(
                other,
                items,
                trigger_tokens,
                compact_threshold_tokens,
            ).context_projections == after_pressure(
                runtime,
                items,
                trigger_tokens,
                compact_threshold_tokens,
            ).context_projections
            &&& overflow_answer(other, items, trigger_tokens, compact_threshold_tokens, cancelled)
                == overflow_answer(
                runtime,
                items,
                trigger_tokens,
                compact_threshold_tokens,
                cancelled,
            )
        }),
{
}

/// A request that overflowed is sent again, once, if it became smaller. With recovery
/// on and no retry used: where what would be sent now has fewer bytes than what was
/// sent, however few, exactly that is sent; where it has not, the error stands; and
/// where the request was cancelled, it stays so. Without recovery nothing is decided.
pub proof fn law_a_smaller_request_is_sent_again(
    runtime: EnhancedSessionRuntimeView,
    before: ModelVisibleSurfaceView,
    after_items: Seq<ResponseItemView>,
    cancelled: bool,
)
    ensures
        ({
            let answer = retry_decision(runtime, before, after_items, cancelled);
            let after = after_retry(runtime, before, after_items, cancelled);
            let smaller = context_pruner::capped(
                context_pruner::items_bytes(response_items::surface_of(after_items).items),
            ) < context_pruner::capped(context_pruner::items_bytes(before.items));
            let on = runtime.hooks.features.deepseek_context_recovery;
            let unused = runtime.hooks.overflow_retries_used == 0;
            &&& !on ==> answer is DeferToUpstream && after == runtime
            &&& on && cancelled ==> answer is Cancelled && after.hooks == runtime.hooks
            &&& on && !cancelled && unused && smaller && before.generation < u64::MAX ==> answer
                == (OverflowSeamView::Retry { pruned: after_items })
                && after.hooks.overflow_retries_used == 1
            &&& on && !cancelled && (!unused || !smaller) ==> answer is PreserveOriginalError
                && after.hooks == runtime.hooks
        }),
{
}

/// An overflow is met by pruning. With recovery on, what is left after pruning decides:
/// where it is below the window and became smaller, the pruned prompt is sent again;
/// where it still fills the window, the native compaction is asked for, with what was
/// sent. A request that was cancelled is not sent again.
pub proof fn law_an_overflow_is_met_by_pruning(
    runtime: EnhancedSessionRuntimeView,
    sent_items: Seq<ResponseItemView>,
    forced_trigger_tokens: u64,
    context_window_tokens: u64,
    cancelled: bool,
)
    requires
        runtime.hooks.features.deepseek_context_recovery,
    ensures
        ({
            let sent = response_items::surface_of(sent_items);
            let left = context_pruner::prune_result(
                sent,
                runtime.hooks.prune_policy,
                forced_trigger_tokens,
            ).surface;
            let relieved = relieved_items(
                runtime,
                sent_items,
                forced_trigger_tokens,
                context_window_tokens,
            );
            let smaller = context_pruner::capped(
                context_pruner::items_bytes(response_items::surface_of(relieved).items),
            ) < context_pruner::capped(context_pruner::items_bytes(sent.items));
            let answer = overflow_answer(
                runtime,
                sent_items,
                forced_trigger_tokens,
                context_window_tokens,
                cancelled,
            );
            let after = after_overflow(
                runtime,
                sent_items,
                forced_trigger_tokens,
                context_window_tokens,
                cancelled,
            );
            let fits = left.tokens() < context_window_tokens;
            let unused = runtime.hooks.overflow_retries_used == 0;
            &&& !fits ==> answer == (OverflowSeamView::NeedsNativeCompact { before: sent })
            &&& fits && cancelled ==> answer is Cancelled
            &&& fits && !cancelled && smaller && unused ==> answer == (OverflowSeamView::Retry {
                pruned: relieved,
            }) && after.hooks.overflow_retries_used == 1
            &&& fits && !cancelled && (!smaller || !unused) ==> answer is PreserveOriginalError
            &&& !(answer is Retry) ==> after.hooks == runtime.hooks
            &&& after.last_surface == Some(left)
        }),
{
}

/// Pressure is handled where there is a window and recovery is on, and then the native
/// compaction runs exactly where what is left reaches the threshold. What is left is
/// kept as the last surface.
pub proof fn law_pressure_keeps_what_is_left(
    runtime: EnhancedSessionRuntimeView,
    items: Seq<ResponseItemView>,
    context_window_tokens: u64,
    trigger_tokens: u64,
    compact_threshold_tokens: u64,
)
    ensures
        handles_pressure(runtime, context_window_tokens) <==> context_window_tokens != 0
            && runtime.hooks.features.deepseek_context_recovery,
        ({
            let left = context_pruner::prune_result(
                response_items::surface_of(items),
                runtime.hooks.prune_policy,
                trigger_tokens,
            ).surface;
            let after = after_pressure(
                runtime,
                items,
                trigger_tokens,
                compact_threshold_tokens,
            );
            &&& prompt_plan(
                runtime,
                items,
                trigger_tokens,
                compact_threshold_tokens,
            ).compact == (if left.tokens() >= compact_threshold_tokens {
                CompactDecision::RunNativeCodexLocalCompact
            } else {
                CompactDecision::Skip
            })
            &&& after.last_surface == Some(left)
            &&& after.hooks == runtime.hooks
            &&& after.pending_continuation == runtime.pending_continuation
            &&& after.ledger_restored == runtime.ledger_restored
        }),
{
}

proof fn lemma_single_block(block: context_pruner::ContentBlockView)
    ensures
        block.text matches Some(t) ==> context_pruner::run_together(seq![block]) == t
            && response_items::blocks_text(seq![block]) == t,
{
    if let Some(t) = block.text {
        let pick = |b: context_pruner::ContentBlockView| response_items::block_text(b);
        let one = seq![block];
        one.lemma_filter_map_take_succ(pick, 0);
        assert(one.take(0).filter_map(pick) =~= seq![]) by {
            reveal(Seq::filter_map);
        }
        assert(one.take(1) =~= one);
        assert(one.filter_map(pick) =~= seq![t]);
        text::law_lines_stand_below_one_another(seq![], t);
        let parts = one.map_values(
            |b: context_pruner::ContentBlockView|
                match b.text {
                    Some(shown) => shown,
                    None => seq![],
                },
        );
        assert(parts.len() == 1 && parts[0] == t);
        parts.lemma_flatten_one_element();
    }
}

/// Under pressure a long output is cut in the prompt itself, function call or custom
/// call alike: it keeps its head and its tail, and a note in between tells how many
/// characters were left out. A short one keeps its text. Where cutting makes the
/// surface no smaller, the prompt stays as it is. The output has to be the only one of
/// its call.
pub proof fn law_relief_cuts_long_outputs(
    runtime: EnhancedSessionRuntimeView,
    items: Seq<ResponseItemView>,
    trigger_tokens: u64,
    compact_threshold_tokens: u64,
    i: int,
)
    requires
        0 <= i < items.len(),
        items[i].answered_call() matches Some(id) && id.len() > 0,
        items[i].answer_text() is Some,
        is_only_output(items, i),
    ensures
        ({
            let surface = response_items::surface_of(items);
            let policy = runtime.hooks.prune_policy;
            let left = context_pruner::prune_result(surface, policy, trigger_tokens).surface;
            let relieved = relieved_items(
                runtime,
                items,
                trigger_tokens,
                compact_threshold_tokens,
            );
            let t = items[i].answer_text()->0;
            let head = policy.keep_head_chars as int;
            let tail = policy.keep_tail_chars as int;
            &&& relieved.len() == items.len()
            &&& relieved[i].answered_call() == items[i].answered_call()
            &&& left.size() >= surface.size() ==> relieved == items
            &&& left.size() < surface.size() && surface.tokens() >= trigger_tokens && t.len()
                >= policy.min_text_chars && t.len() > head + tail ==> relieved[i].answer_text()
                == Some(
                t.take(head) + "\n[... omitted "@ + text::decimal(
                    (t.len() - head - tail) as nat,
                ) + " characters ...]\n"@ + t.skip(t.len() - tail),
            )
            &&& t.len() < policy.min_text_chars || t.len() <= head + tail
                ==> relieved[i].answer_text() == Some(t)
        }),
{
    let surface = response_items::surface_of(items);
    let policy = runtime.hooks.prune_policy;
    let outcome = context_pruner::prune_result(surface, policy, trigger_tokens);
    let left = outcome.surface;
    let id = items[i].answered_call()->0;
    let t = items[i].answer_text()->0;
    context_pruner::law_pruning_tells_what_it_did(surface, policy, trigger_tokens);
    if outcome.rewritten {
        response_items::lemma_only_result(items, i);
        let place = response_items::surface_of(items.take(i)).items.len() as int;
        context_pruner::law_pressure_cuts_every_long_result(
            surface,
            policy,
            trigger_tokens,
            place,
        );
        context_pruner::law_pruning_keeps_structure(surface, policy, trigger_tokens, place);
        let found = response_items::answers(left.items, id);
        assert(found(place));
        assert forall|k: int| place < k < left.items.len() implies !#[trigger] found(k) by {
            context_pruner::law_pruning_keeps_structure(surface, policy, trigger_tokens, k);
            assert(!(surface.items[k] matches context_pruner::SurfaceItemView::ToolResult {
                call_id,
                ..
            } && call_id == id));
        }
        search::lemma_last_below_is(left.items.len(), found, place);
        let blocks = surface.items[place]->ToolResult_blocks;
        let kept = left.items[place]->ToolResult_blocks;
        assert(blocks =~= seq![blocks[0]]);
        assert(kept =~= seq![kept[0]]);
        lemma_single_block(blocks[0]);
        lemma_single_block(kept[0]);
    }
}

/// What is no output of a call stays in a relieved prompt as it is.
pub proof fn law_relief_touches_only_outputs(
    runtime: EnhancedSessionRuntimeView,
    items: Seq<ResponseItemView>,
    trigger_tokens: u64,
    compact_threshold_tokens: u64,
    i: int,
)
    requires
        0 <= i < items.len(),
        items[i].answered_call() is None,
    ensures
        relieved_items(runtime, items, trigger_tokens, compact_threshold_tokens)[i] == items[i],
{
}

/// Where the store holds a replacement for an output, made for the same call, the same
/// text and the current generation, that is what is shown; all else is shown as it is.
pub proof fn law_replacements_are_shown(
    store: ContextProjectionStoreView,
    items: Seq<ResponseItemView>,
    i: int,
    k: int,
)
    requires
        store.distinct(),
        0 <= i < items.len(),
        0 <= k < store.records.len(),
    ensures
        ({
            let shown = projected_items(store, items)[i];
            let record = store.records[k];
            &&& items[i].answered_call() == Some(record.call_id) && record.generation
                == store.generation && (items[i].answer_text() matches Some(t)
                && record.original_sha256 == digest::text_digest(t)) ==> shown.answer_text()
                == Some(record.projected_text) && shown.answered_call()
                == items[i].answered_call()
            &&& (forall|j: int|
                0 <= j < store.records.len() ==> !(items[i].answered_call() == Some(
                    (#[trigger] store.records[j]).call_id,
                ) && store.records[j].generation == store.generation && (
                items[i].answer_text() matches Some(t) && store.records[j].original_sha256
                    == digest::text_digest(t)))) ==> shown == items[i]
        }),
{
    if let (Some(call_id), Some(t)) = (items[i].answered_call(), items[i].answer_text()) {
        let found = store.direct(call_id, digest::text_digest(t));
        let n = store.records.len();
        search::lemma_last_below(n, found);
        let last = search::last_below(n, found);
        if found(k) {
            if last < k {
                assert(!found(k));
            }
            assert(found(last));
            if last > k {
                assert(store.records[k].call_id == store.records[last].call_id);
            }
        }
        if last >= 0 {
            assert(found(last));
            assert(store.records[last].call_id == call_id);
        }
    }
}

/// Showing replacements is reported where something was replaced, and only there. The
/// first time after a restart it is told that they were restored.
pub proof fn law_shown_replacements_are_reported(
    runtime: EnhancedSessionRuntimeView,
    items: Seq<ResponseItemView>,
)
    ensures
        ({
            let store = runtime.context_projections;
            let after = after_projection(runtime, items);
            let replaced = runtime.hooks.features.deepseek_context_recovery && exists|i: int|
                0 <= i < items.len() && replacement_for(store, #[trigger] items[i]) is Some;
            let restored = store.restored_from_disk && !store.restoration_reported;
            let n = runtime.telemetry.len() as int;
            &&& !replaced ==> after == runtime
            &&& replaced ==> {
                &&& after.telemetry.len() == n + (if restored {
                    2int
                } else {
                    1int
                })
                &&& after.telemetry[n].kind == EnhancedEventKind::ContextProjectionApplied
                &&& restored ==> after.telemetry[n + 1].kind
                    == EnhancedEventKind::ContextProjectionRestored
                &&& after.telemetry[n].fields.before_token_estimate == Some(
                    response_items::surface_of(items).tokens() as u64,
                )
                &&& after.telemetry[n].fields.after_token_estimate == Some(
                    response_items::surface_of(projected_items(store, items)).tokens() as u64,
                )
                &&& after.context_projections.restoration_reported == (restored
                    || store.restoration_reported)
                &&& after.context_projections.records == store.records
                &&& after.context_projections.generation == store.generation
                &&& after.hooks == runtime.hooks
            }
        }),
{
    lemma_count_is_positive(runtime.context_projections, items);
}

proof fn lemma_count_is_positive(store: ContextProjectionStoreView, items: Seq<ResponseItemView>)
    ensures
        projected_count(store, items) > 0 <==> exists|i: int|
            0 <= i < items.len() && replacement_for(store, #[trigger] items[i]) is Some,
    decreases items.len(),
{
    if items.len() > 0 {
        let front = items.drop_last();
        lemma_count_is_positive(store, front);
        if exists|i: int| 0 <= i < front.len() && replacement_for(store, #[trigger] front[i])
            is Some {
            let i = choose|i: int|
                0 <= i < front.len() && replacement_for(store, #[trigger] front[i]) is Some;
            assert(items[i] == front[i]);
        }
        if exists|i: int| 0 <= i < items.len() && replacement_for(store, #[trigger] items[i])
            is Some {
            let i = choose|i: int|
                0 <= i < items.len() && replacement_for(store, #[trigger] items[i]) is Some;
            if i < front.len() {
                assert(front[i] == items[i]);
            } else {
                assert(items.last() == items[i]);
            }
        }
        if replacement_for(store, items.last()) is Some {
            assert(items[items.len() - 1] == items.last());
        }
    }
}

/// What is reported as saved is the sum of what each replacement is shorter, in bytes;
/// one that is longer saves nothing.
pub proof fn law_savings_add_up(
    store: ContextProjectionStoreView,
    items: Seq<ResponseItemView>,
    item: ResponseItemView,
)
    ensures
        total_saved(store, seq![]) == 0,
        total_saved(store, items.push(item)) == total_saved(store, items) + (
        match replacement_for(store, item) {
            Some(shown) => {
                let before = vstd::utf8::encode_utf8(item.answer_text()->0).len();
                let after = vstd::utf8::encode_utf8(shown).len();
                if after < before {
                    (before - after) as nat
                } else {
                    0nat
                }
            },
            None => 0nat,
        }),
        projection_fields(store, items).chars_removed == (if total_saved(store, items) <= u64::MAX {
            Some(total_saved(store, items) as u64)
        } else {
            Some(u64::MAX)
        }),
{
    assert(items.push(item).drop_last() =~= items);
}

/// What a prompt shows for a call is remembered for every output of the call that the
/// prompt held before; the last output of the call in the pruned prompt counts.
pub proof fn law_the_last_output_is_remembered(
    store: ContextProjectionStoreView,
    original: Seq<ResponseItemView>,
    item: ResponseItemView,
    projected: Seq<ResponseItemView>,
    i: int,
)
    requires
        0 <= i < projected.len(),
        projected[i].answered_call() is Some,
        projected[i].answer_text() is Some,
        forall|j: int|
            i < j < projected.len() ==> (#[trigger] projected[j]).answered_call()
                != projected[i].answered_call(),
    ensures
        remembered(store, seq![], projected) == store,
        item.answered_call() == projected[i].answered_call() && item.answer_text() is Some
            ==> remembered(store, original.push(item), projected) == remembered(
            store,
            original,
            projected,
        ).recorded(
            item.answered_call()->0,
            item.answer_text()->0,
            projected[i].answer_text()->0,
        ),
        item.answer_text() is None ==> remembered(store, original.push(item), projected)
            == remembered(store, original, projected),
{
    assert(original.push(item).drop_last() =~= original);
    let found = answers_call(projected, projected[i].answered_call()->0);
    assert(found(i));
    assert forall|j: int| i < j < projected.len() implies !#[trigger] found(j) by {
        assert(projected[j].answered_call() != projected[i].answered_call());
    }
    search::lemma_last_below_is(projected.len(), found, i);
}

/// With recovery off a prompt is shown as it is; with it on every item keeps its place.
pub proof fn law_replacements_are_shown_with_recovery_on(
    runtime: EnhancedSessionRuntimeView,
    items: Seq<ResponseItemView>,
    i: int,
)
    requires
        0 <= i < items.len(),
    ensures
        shown_prompt(runtime, items).len() == items.len(),
        !runtime.hooks.features.deepseek_context_recovery ==> shown_prompt(runtime, items)
            == items,
        runtime.hooks.features.deepseek_context_recovery ==> shown_prompt(runtime, items)
            == projected_items(runtime.context_projections, items),
        shown_prompt(runtime, items)[i].answered_call() == items[i].answered_call(),
{
}

/// What is reported of shown replacements names the first call that was replaced.
pub proof fn law_the_first_replaced_call_is_named(
    store: ContextProjectionStoreView,
    items: Seq<ResponseItemView>,
    i: int,
)
    requires
        0 <= i < items.len(),
        replacement_for(store, items[i]) is Some,
        forall|k: int| 0 <= k < i ==> replacement_for(store, #[trigger] items[k]) is None,
    ensures
        items[i].answered_call() matches Some(call_id) && projection_fields(
            store,
            items,
        ).call_id_hash == Some(digest::text_digest(call_id)),
{
    let p = is_projected(store, items);
    assert(p(i));
    assert forall|k: int| 0 <= k < i implies !#[trigger] p(k) by {
        assert(replacement_for(store, items[k]) is None);
    }
    search::lemma_first_below_is(items.len(), p, i);
}

} // verus!
