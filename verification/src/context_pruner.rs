//! Pruning long tool results out of what the model is shown.

use crate::telemetry;
use crate::telemetry::{EnhancedEvent, EnhancedEventFields, EnhancedEventKind, EnhancedEventView};
use crate::text;
use vstd::prelude::*;

verus! {

/// How a long tool result is cut. The profile is shared by all models.
///
/// The share of the context window from which on pruning sets in is not part of
/// it: callers hand over the number of tokens that it comes to.
#[derive(Debug, Clone, Copy, PartialEq, Eq, Structural)]
pub struct ToolResultPrunePolicy {
    /// Results with fewer characters are left alone.
    pub min_text_chars: usize,
    /// How many characters stay at the front.
    pub keep_head_chars: usize,
    /// How many characters stay at the end.
    pub keep_tail_chars: usize,
}

impl ToolResultPrunePolicy {
    /// The profile in use unless another is configured.
    pub open spec fn standard() -> Self {
        ToolResultPrunePolicy { min_text_chars: 2_000, keep_head_chars: 400, keep_tail_chars: 800 }
    }
}

impl Default for ToolResultPrunePolicy {
    fn default() -> (r: Self)
        ensures
            r == ToolResultPrunePolicy::standard(),
    {
        ToolResultPrunePolicy { min_text_chars: 2_000, keep_head_chars: 400, keep_tail_chars: 800 }
    }
}

/// One block of a tool result. A block that is not text has no text.
#[derive(Debug, PartialEq, Eq)]
pub struct ContentBlock {
    pub kind: String,
    pub text: Option<String>,
}

/// The model of [`ContentBlock`].
#[verifier::ext_equal]
pub struct ContentBlockView {
    pub kind: Seq<char>,
    pub text: Option<Seq<char>>,
}

impl View for ContentBlock {
    type V = ContentBlockView;

    open spec fn view(&self) -> ContentBlockView {
        ContentBlockView {
            kind: self.kind@,
            text: self.text.deep_view(),
        }
    }
}

impl DeepView for ContentBlock {
    type V = ContentBlockView;

    open spec fn deep_view(&self) -> ContentBlockView {
        self@
    }
}

impl Clone for ContentBlock {
    fn clone(&self) -> (r: Self)
        ensures
            r@ == self@,
    {
        ContentBlock {
            kind: self.kind.clone(),
            text: self.text.clone(),
        }
    }
}

/// One item of what the model is shown.
#[derive(Debug, PartialEq, Eq)]
pub enum SurfaceItem {
    User { text: String },
    System { text: String },
    Developer { text: String },
    Assistant { text: String },
    ToolCall { call_id: String, tool_name: String, tool_type: String, arguments: String },
    ToolResult { call_id: String, tool_name: String, tool_type: String, blocks: Vec<ContentBlock> },
    Control { key: String, value: String },
}

/// The model of [`SurfaceItem`].
#[verifier::ext_equal]
pub enum SurfaceItemView {
    User { text: Seq<char> },
    System { text: Seq<char> },
    Developer { text: Seq<char> },
    Assistant { text: Seq<char> },
    ToolCall {
        call_id: Seq<char>,
        tool_name: Seq<char>,
        tool_type: Seq<char>,
        arguments: Seq<char>,
    },
    ToolResult {
        call_id: Seq<char>,
        tool_name: Seq<char>,
        tool_type: Seq<char>,
        blocks: Seq<ContentBlockView>,
    },
    Control { key: Seq<char>, value: Seq<char> },
}

impl View for SurfaceItem {
    type V = SurfaceItemView;

    open spec fn view(&self) -> SurfaceItemView {
        match self {
            SurfaceItem::User { text } => SurfaceItemView::User { text: text@ },
            SurfaceItem::System { text } => SurfaceItemView::System { text: text@ },
            SurfaceItem::Developer { text } => SurfaceItemView::Developer { text: text@ },
            SurfaceItem::Assistant { text } => SurfaceItemView::Assistant { text: text@ },
            SurfaceItem::ToolCall { call_id, tool_name, tool_type, arguments } => {
                SurfaceItemView::ToolCall {
                    call_id: call_id@,
                    tool_name: tool_name@,
                    tool_type: tool_type@,
                    arguments: arguments@,
                }
            },
            SurfaceItem::ToolResult { call_id, tool_name, tool_type, blocks } => {
                SurfaceItemView::ToolResult {
                    call_id: call_id@,
                    tool_name: tool_name@,
                    tool_type: tool_type@,
                    blocks: blocks.deep_view(),
                }
            },
            SurfaceItem::Control { key, value } => SurfaceItemView::Control {
                key: key@,
                value: value@,
            },
        }
    }
}

impl DeepView for SurfaceItem {
    type V = SurfaceItemView;

    open spec fn deep_view(&self) -> SurfaceItemView {
        self@
    }
}

impl Clone for SurfaceItem {
    fn clone(&self) -> (r: Self)
        ensures
            r@ == self@,
    {
        match self {
            SurfaceItem::User { text } => SurfaceItem::User { text: text.clone() },
            SurfaceItem::System { text } => SurfaceItem::System { text: text.clone() },
            SurfaceItem::Developer { text } => SurfaceItem::Developer { text: text.clone() },
            SurfaceItem::Assistant { text } => SurfaceItem::Assistant { text: text.clone() },
            SurfaceItem::ToolCall { call_id, tool_name, tool_type, arguments } => {
                SurfaceItem::ToolCall {
                    call_id: call_id.clone(),
                    tool_name: tool_name.clone(),
                    tool_type: tool_type.clone(),
                    arguments: arguments.clone(),
                }
            },
            SurfaceItem::ToolResult { call_id, tool_name, tool_type, blocks } => {
                SurfaceItem::ToolResult {
                    call_id: call_id.clone(),
                    tool_name: tool_name.clone(),
                    tool_type: tool_type.clone(),
                    blocks: blocks.clone(),
                }
            },
            SurfaceItem::Control { key, value } => SurfaceItem::Control {
                key: key.clone(),
                value: value.clone(),
            },
        }
    }
}

/// What the model is shown, in order.
#[derive(Debug, PartialEq, Eq)]
pub struct ModelVisibleSurface {
    pub items: Vec<SurfaceItem>,
    pub generation: u64,
}

/// The model of [`ModelVisibleSurface`].
#[verifier::ext_equal]
pub struct ModelVisibleSurfaceView {
    pub items: Seq<SurfaceItemView>,
    pub generation: u64,
}

impl View for ModelVisibleSurface {
    type V = ModelVisibleSurfaceView;

    open spec fn view(&self) -> ModelVisibleSurfaceView {
        ModelVisibleSurfaceView {
            items: self.items.deep_view(),
            generation: self.generation,
        }
    }
}

impl DeepView for ModelVisibleSurface {
    type V = ModelVisibleSurfaceView;

    open spec fn deep_view(&self) -> ModelVisibleSurfaceView {
        self@
    }
}

impl Clone for ModelVisibleSurface {
    fn clone(&self) -> (r: Self)
        ensures
            r@ == self@,
    {
        ModelVisibleSurface {
            items: self.items.clone(),
            generation: self.generation,
        }
    }
}

impl Default for ModelVisibleSurface {
    fn default() -> (r: Self)
        ensures
            r@ == (ModelVisibleSurfaceView { items: seq![], generation: 0 }),
    {
        let r = ModelVisibleSurface { items: Vec::new(), generation: 0 };
        assert(r@.items =~= seq![]);
        r
    }
}

/// A number that does not exceed `usize::MAX`.
pub open spec fn capped(n: nat) -> nat {
    if n <= usize::MAX {
        n
    } else {
        usize::MAX as nat
    }
}

/// The length of a text in UTF-8 bytes.
pub open spec fn bytes(s: Seq<char>) -> nat {
    vstd::utf8::encode_utf8(s).len()
}

/// The number of characters in a block.
pub open spec fn block_chars(block: ContentBlockView) -> nat {
    match block.text {
        Some(t) => t.len(),
        None => 0,
    }
}

/// The number of characters in the blocks of a tool result.
pub open spec fn blocks_chars(blocks: Seq<ContentBlockView>) -> nat
    decreases blocks.len(),
{
    if blocks.len() == 0 {
        0
    } else {
        blocks_chars(blocks.drop_last()) + block_chars(blocks.last())
    }
}

/// The length of a block's text in bytes.
pub open spec fn block_bytes(block: ContentBlockView) -> nat {
    match block.text {
        Some(t) => bytes(t),
        None => 0,
    }
}

/// The length of the blocks' texts in bytes.
pub open spec fn blocks_bytes(blocks: Seq<ContentBlockView>) -> nat
    decreases blocks.len(),
{
    if blocks.len() == 0 {
        0
    } else {
        blocks_bytes(blocks.drop_last()) + block_bytes(blocks.last())
    }
}

/// The size of an item: texts by their characters, identifiers, names and
/// control entries by their bytes.
pub open spec fn item_size(item: SurfaceItemView) -> nat {
    match item {
        SurfaceItemView::User { text } => text.len(),
        SurfaceItemView::System { text } => text.len(),
        SurfaceItemView::Developer { text } => text.len(),
        SurfaceItemView::Assistant { text } => text.len(),
        SurfaceItemView::ToolCall { call_id, tool_name, tool_type, arguments } => bytes(call_id)
            + bytes(tool_name) + bytes(tool_type) + arguments.len(),
        SurfaceItemView::ToolResult { call_id, tool_name, tool_type, blocks } => bytes(call_id)
            + bytes(tool_name) + bytes(tool_type) + blocks_chars(blocks),
        SurfaceItemView::Control { key, value } => bytes(key) + bytes(value),
    }
}

/// The length of all the texts of an item in bytes.
pub open spec fn item_bytes(item: SurfaceItemView) -> nat {
    match item {
        SurfaceItemView::User { text } => bytes(text),
        SurfaceItemView::System { text } => bytes(text),
        SurfaceItemView::Developer { text } => bytes(text),
        SurfaceItemView::Assistant { text } => bytes(text),
        SurfaceItemView::ToolCall { call_id, tool_name, tool_type, arguments } => bytes(call_id)
            + bytes(tool_name) + bytes(tool_type) + bytes(arguments),
        SurfaceItemView::ToolResult { call_id, tool_name, tool_type, blocks } => bytes(call_id)
            + bytes(tool_name) + bytes(tool_type) + blocks_bytes(blocks),
        SurfaceItemView::Control { key, value } => bytes(key) + bytes(value),
    }
}

/// The size of all items.
pub open spec fn items_size(items: Seq<SurfaceItemView>) -> nat
    decreases items.len(),
{
    if items.len() == 0 {
        0
    } else {
        items_size(items.drop_last()) + item_size(items.last())
    }
}

/// The length of all the texts of all items in bytes.
pub open spec fn items_bytes(items: Seq<SurfaceItemView>) -> nat
    decreases items.len(),
{
    if items.len() == 0 {
        0
    } else {
        items_bytes(items.drop_last()) + item_bytes(items.last())
    }
}

/// The call that an item makes.
pub open spec fn called_id(item: SurfaceItemView) -> Option<Seq<char>> {
    match item {
        SurfaceItemView::ToolCall { call_id, .. } => Some(call_id),
        _ => None,
    }
}

/// The call that an item answers.
pub open spec fn answered_id(item: SurfaceItemView) -> Option<Seq<char>> {
    match item {
        SurfaceItemView::ToolResult { call_id, .. } => Some(call_id),
        _ => None,
    }
}

/// The calls that are made, in order.
pub open spec fn called_ids(items: Seq<SurfaceItemView>) -> Seq<Seq<char>> {
    items.filter_map(|item: SurfaceItemView| called_id(item))
}

/// The calls that are answered, in order.
pub open spec fn answered_ids(items: Seq<SurfaceItemView>) -> Seq<Seq<char>> {
    items.filter_map(|item: SurfaceItemView| answered_id(item))
}

impl ModelVisibleSurfaceView {
    /// The size of the surface as it is counted.
    pub open spec fn size(self) -> nat {
        capped(items_size(self.items))
    }

    /// A token for every four characters, rounded up.
    pub open spec fn tokens(self) -> nat {
        (self.size() + 3) / 4
    }

    /// Whether the calls and the results stand in the same order, one for one.
    pub open spec fn pairs_intact(self) -> bool {
        called_ids(self.items) == answered_ids(self.items)
    }
}

/// Counts the characters of a block.
fn count_block_chars(block: &ContentBlock) -> (r: usize)
    ensures
        r as nat == block_chars(block@),
{
    match &block.text {
        Some(t) => t.as_str().unicode_len(),
        None => 0,
    }
}

/// Counts the characters of all blocks.
fn count_blocks_chars(blocks: &Vec<ContentBlock>) -> (r: u128)
    ensures
        r as nat == blocks_chars(blocks.deep_view()),
{
    let mut total: u128 = 0;
    let mut i: usize = 0;
    let ghost all = blocks.deep_view();
    while i < blocks.len()
        invariant
            i <= blocks.len(),
            all == blocks.deep_view(),
            total as nat == blocks_chars(all.take(i as int)),
            total <= i * usize::MAX,
        decreases blocks.len() - i,
    {
        proof {
            assert(all.take(i + 1).drop_last() =~= all.take(i as int));
            assert(all.take(i + 1).last() == blocks@[i as int]@);
            assert(i * usize::MAX + usize::MAX == (i + 1) * usize::MAX) by (nonlinear_arith);
            assert((i + 1) * usize::MAX <= u128::MAX) by (nonlinear_arith)
                requires
                    i + 1 <= usize::MAX,
                    usize::MAX <= 0xffff_ffff_ffff_ffff,
            ;
        }
        total = total + count_block_chars(&blocks[i]) as u128;
        i = i + 1;
    }
    assert(all.take(i as int) =~= all);
    total
}

/// The lesser of a count and `usize::MAX`.
fn cap(n: u128) -> (r: usize)
    ensures
        r as nat == capped(n as nat),
{
    if n <= usize::MAX as u128 {
        n as usize
    } else {
        usize::MAX
    }
}

/// The size of an item; a size beyond `usize::MAX` counts as `usize::MAX`.
pub fn item_chars(item: &SurfaceItem) -> (r: usize)
    ensures
        r as nat == capped(item_size(item@)),
{
    match item {
        SurfaceItem::User { text } => text.as_str().unicode_len(),
        SurfaceItem::System { text } => text.as_str().unicode_len(),
        SurfaceItem::Developer { text } => text.as_str().unicode_len(),
        SurfaceItem::Assistant { text } => text.as_str().unicode_len(),
        SurfaceItem::ToolCall { call_id, tool_name, tool_type, arguments } => text::byte_len(
            call_id.as_str(),
        ).saturating_add(text::byte_len(tool_name.as_str())).saturating_add(
            text::byte_len(tool_type.as_str()),
        ).saturating_add(arguments.as_str().unicode_len()),
        SurfaceItem::ToolResult { call_id, tool_name, tool_type, blocks } => text::byte_len(
            call_id.as_str(),
        ).saturating_add(text::byte_len(tool_name.as_str())).saturating_add(
            text::byte_len(tool_type.as_str()),
        ).saturating_add(cap(count_blocks_chars(blocks))),
        SurfaceItem::Control { key, value } => text::byte_len(key.as_str()).saturating_add(
            text::byte_len(value.as_str()),
        ),
    }
}

/// The length of the blocks' texts in bytes, at most `usize::MAX`.
fn count_blocks_bytes(blocks: &Vec<ContentBlock>) -> (r: usize)
    ensures
        r as nat == capped(blocks_bytes(blocks.deep_view())),
{
    let mut total: usize = 0;
    let mut i: usize = 0;
    let ghost all = blocks.deep_view();
    while i < blocks.len()
        invariant
            i <= blocks.len(),
            all == blocks.deep_view(),
            total as nat == capped(blocks_bytes(all.take(i as int))),
        decreases blocks.len() - i,
    {
        proof {
            assert(all.take(i + 1).drop_last() =~= all.take(i as int));
            assert(all.take(i + 1).last() == blocks@[i as int]@);
        }
        let n: usize = match &blocks[i].text {
            Some(t) => text::byte_len(t.as_str()),
            None => 0,
        };
        total = total.saturating_add(n);
        i = i + 1;
    }
    assert(all.take(i as int) =~= all);
    total
}

/// The length of all the texts of an item in bytes, at most `usize::MAX`.
fn count_item_bytes(item: &SurfaceItem) -> (r: usize)
    ensures
        r as nat == capped(item_bytes(item@)),
{
    match item {
        SurfaceItem::User { text } => text::byte_len(text.as_str()),
        SurfaceItem::System { text } => text::byte_len(text.as_str()),
        SurfaceItem::Developer { text } => text::byte_len(text.as_str()),
        SurfaceItem::Assistant { text } => text::byte_len(text.as_str()),
        SurfaceItem::ToolCall { call_id, tool_name, tool_type, arguments } => text::byte_len(
            call_id.as_str(),
        ).saturating_add(text::byte_len(tool_name.as_str())).saturating_add(
            text::byte_len(tool_type.as_str()),
        ).saturating_add(text::byte_len(arguments.as_str())),
        SurfaceItem::ToolResult { call_id, tool_name, tool_type, blocks } => text::byte_len(
            call_id.as_str(),
        ).saturating_add(text::byte_len(tool_name.as_str())).saturating_add(
            text::byte_len(tool_type.as_str()),
        ).saturating_add(count_blocks_bytes(blocks)),
        SurfaceItem::Control { key, value } => text::byte_len(key.as_str()).saturating_add(
            text::byte_len(value.as_str()),
        ),
    }
}

impl ModelVisibleSurface {
    /// An estimate of the tokens: one for every four characters, rounded up.
    pub fn estimated_tokens(&self) -> (r: u64)
        ensures
            r as nat == self@.tokens(),
    {
        let chars: usize = self.char_count();
        let whole: u64 = (chars / 4) as u64;
        if chars % 4 == 0 {
            whole
        } else {
            whole + 1
        }
    }

    /// The size of the surface; a size beyond `usize::MAX` counts as
    /// `usize::MAX`.
    pub fn char_count(&self) -> (r: usize)
        ensures
            r as nat == self@.size(),
    {
        let mut total: usize = 0;
        let mut i: usize = 0;
        let ghost all = self@.items;
        while i < self.items.len()
            invariant
                i <= self.items.len(),
                all == self@.items,
                total as nat == capped(items_size(all.take(i as int))),
            decreases self.items.len() - i,
        {
            proof {
                assert(all.take(i + 1).drop_last() =~= all.take(i as int));
                assert(all.take(i + 1).last() == self.items@[i as int]@);
            }
            total = total.saturating_add(item_chars(&self.items[i]));
            i = i + 1;
        }
        assert(all.take(i as int) =~= all);
        total
    }

    /// The length of all the texts in bytes; a length beyond `usize::MAX` counts
    /// as `usize::MAX`.
    pub fn byte_count(&self) -> (r: usize)
        ensures
            r as nat == capped(items_bytes(self@.items)),
    {
        let mut total: usize = 0;
        let mut i: usize = 0;
        let ghost all = self@.items;
        while i < self.items.len()
            invariant
                i <= self.items.len(),
                all == self@.items,
                total as nat == capped(items_bytes(all.take(i as int))),
            decreases self.items.len() - i,
        {
            proof {
                assert(all.take(i + 1).drop_last() =~= all.take(i as int));
                assert(all.take(i + 1).last() == self.items@[i as int]@);
            }
            total = total.saturating_add(count_item_bytes(&self.items[i]));
            i = i + 1;
        }
        assert(all.take(i as int) =~= all);
        total
    }

    /// Tells whether the calls and the results stand in the same order, one for
    /// one.
    pub fn tool_pairs_intact(&self) -> (r: bool)
        ensures
            r == self@.pairs_intact(),
    {
        let ghost all = self@.items;
        let mut calls: Vec<String> = Vec::new();
        let mut results: Vec<String> = Vec::new();
        let mut i: usize = 0;
        proof {
            assert(called_ids(all.take(0)) =~= seq![]) by {
                reveal(Seq::filter_map);
            }
            assert(answered_ids(all.take(0)) =~= seq![]) by {
                reveal(Seq::filter_map);
            }
        }
        while i < self.items.len()
            invariant
                i <= self.items.len(),
                all == self@.items,
                calls.deep_view() =~= called_ids(all.take(i as int)),
                results.deep_view() =~= answered_ids(all.take(i as int)),
            decreases self.items.len() - i,
        {
            proof {
                all.lemma_filter_map_take_succ(|item: SurfaceItemView| called_id(item), i as int);
                all.lemma_filter_map_take_succ(|item: SurfaceItemView| answered_id(item), i as int);
                assert(all[i as int] == self.items@[i as int]@);
            }
            match &self.items[i] {
                SurfaceItem::ToolCall { call_id, .. } => {
                    calls.push(call_id.clone());
                },
                SurfaceItem::ToolResult { call_id, .. } => {
                    results.push(call_id.clone());
                },
                _ => {},
            }
            i = i + 1;
        }
        assert(all.take(i as int) =~= all);
        same_texts(&calls, &results)
    }
}

/// Tells whether two lists hold the same texts in the same order.
pub fn same_texts(a: &Vec<String>, b: &Vec<String>) -> (r: bool)
    ensures
        r == (a.deep_view() == b.deep_view()),
{
    if a.len() != b.len() {
        assert(a.deep_view().len() != b.deep_view().len());
        return false;
    }
    let mut i: usize = 0;
    while i < a.len()
        invariant
            i <= a.len(),
            a.len() == b.len(),
            forall|k: int| 0 <= k < i ==> a.deep_view()[k] == b.deep_view()[k],
        decreases a.len() - i,
    {
        if !text::same_text(a[i].as_str(), b[i].as_str()) {
            assert(a.deep_view()[i as int] != b.deep_view()[i as int]);
            return false;
        }
        i = i + 1;
    }
    assert(a.deep_view() =~= b.deep_view());
    true
}

/// What pruning did.
#[derive(Debug, PartialEq, Eq)]
pub struct PruneOutcome {
    pub surface: ModelVisibleSurface,
    pub rewritten: bool,
    pub chars_removed: u64,
    pub before_token_estimate: u64,
    pub after_token_estimate: u64,
    pub events: Vec<EnhancedEvent>,
}

/// The model of [`PruneOutcome`].
#[verifier::ext_equal]
pub struct PruneOutcomeView {
    pub surface: ModelVisibleSurfaceView,
    pub rewritten: bool,
    pub chars_removed: u64,
    pub before_token_estimate: u64,
    pub after_token_estimate: u64,
    pub events: Seq<EnhancedEventView>,
}

impl View for PruneOutcome {
    type V = PruneOutcomeView;

    open spec fn view(&self) -> PruneOutcomeView {
        PruneOutcomeView {
            surface: self.surface.deep_view(),
            rewritten: self.rewritten,
            chars_removed: self.chars_removed,
            before_token_estimate: self.before_token_estimate,
            after_token_estimate: self.after_token_estimate,
            events: self.events.deep_view(),
        }
    }
}

impl DeepView for PruneOutcome {
    type V = PruneOutcomeView;

    open spec fn deep_view(&self) -> PruneOutcomeView {
        self@
    }
}

impl Clone for PruneOutcome {
    fn clone(&self) -> (r: Self)
        ensures
            r@ == self@,
    {
        PruneOutcome {
            surface: self.surface.clone(),
            rewritten: self.rewritten,
            chars_removed: self.chars_removed,
            before_token_estimate: self.before_token_estimate,
            after_token_estimate: self.after_token_estimate,
            events: self.events.clone(),
        }
    }
}

/// The text that stands for the characters that were left out.
pub open spec fn marker_text(omitted: nat) -> Seq<char> {
    "\n[... omitted "@ + text::decimal(omitted) + " characters ...]\n"@
}

/// Whether a tool result of so many characters is cut.
pub open spec fn is_cut(total: nat, policy: ToolResultPrunePolicy) -> bool {
    &&& total >= policy.min_text_chars
    &&& total > policy.keep_head_chars + policy.keep_tail_chars
}

/// The position in a text of length `len` that is nearest to `n`.
pub open spec fn within(n: int, len: nat) -> int {
    if n < 0 {
        0
    } else if n > len {
        len as int
    } else {
        n
    }
}

/// What remains of a text that starts at position `start` of the whole result:
/// what lies before `head_end`, what lies from `tail_start` on, and the marker
/// where the character at `head_end` was.
pub open spec fn cut_text(
    t: Seq<char>,
    start: int,
    head_end: int,
    tail_start: int,
    marker: Seq<char>,
) -> Seq<char> {
    t.take(within(head_end - start, t.len())) + (if start <= head_end < start + t.len() {
        marker
    } else {
        seq![]
    }) + t.skip(within(tail_start - start, t.len()))
}

/// The block at position `i` once the result is cut.
pub open spec fn cut_block(
    blocks: Seq<ContentBlockView>,
    policy: ToolResultPrunePolicy,
    i: int,
) -> ContentBlockView {
    let total = blocks_chars(blocks);
    let head_end = policy.keep_head_chars as int;
    let tail_start = total - policy.keep_tail_chars;
    ContentBlockView {
        kind: blocks[i].kind,
        text: match blocks[i].text {
            Some(t) => Some(
                cut_text(
                    t,
                    blocks_chars(blocks.take(i)) as int,
                    head_end,
                    tail_start,
                    marker_text((tail_start - head_end) as nat),
                ),
            ),
            None => None,
        },
    }
}

/// The blocks of a tool result once they are pruned. The characters of all
/// blocks count as one text; blocks without text keep their place.
pub open spec fn pruned_blocks(
    blocks: Seq<ContentBlockView>,
    policy: ToolResultPrunePolicy,
) -> Seq<ContentBlockView> {
    if is_cut(blocks_chars(blocks), policy) {
        Seq::new(blocks.len(), |i: int| cut_block(blocks, policy, i))
    } else {
        blocks
    }
}

/// An item once it is pruned: only tool results change, and only in their
/// blocks.
pub open spec fn pruned_item(
    item: SurfaceItemView,
    policy: ToolResultPrunePolicy,
) -> SurfaceItemView {
    match item {
        SurfaceItemView::ToolResult { call_id, tool_name, tool_type, blocks } => {
            SurfaceItemView::ToolResult {
                call_id,
                tool_name,
                tool_type,
                blocks: pruned_blocks(blocks, policy),
            }
        },
        other => other,
    }
}

/// All items once they are pruned.
pub open spec fn pruned_items(
    items: Seq<SurfaceItemView>,
    policy: ToolResultPrunePolicy,
) -> Seq<SurfaceItemView> {
    Seq::new(items.len(), |i: int| pruned_item(items[i], policy))
}

/// How much smaller the items are once they are pruned.
pub open spec fn removed_chars(items: Seq<SurfaceItemView>, policy: ToolResultPrunePolicy) -> u64 {
    let before = capped(items_size(items));
    let after = capped(items_size(pruned_items(items, policy)));
    if before > after {
        (before - after) as u64
    } else {
        0
    }
}

/// The surface once it is pruned. Its generation counts up where it became
/// smaller.
pub open spec fn pruned_surface(
    surface: ModelVisibleSurfaceView,
    policy: ToolResultPrunePolicy,
) -> ModelVisibleSurfaceView {
    ModelVisibleSurfaceView {
        items: pruned_items(surface.items, policy),
        generation: if removed_chars(surface.items, policy) > 0 && surface.generation < u64::MAX {
            (surface.generation + 1) as u64
        } else {
            surface.generation
        },
    }
}

/// What pruning does to a surface: nothing below `trigger_tokens`, else it
/// prunes every tool result and reports the start and the end.
pub open spec fn prune_result(
    surface: ModelVisibleSurfaceView,
    policy: ToolResultPrunePolicy,
    trigger_tokens: u64,
) -> PruneOutcomeView {
    let before = surface.tokens() as u64;
    if before < trigger_tokens {
        PruneOutcomeView {
            surface,
            rewritten: false,
            chars_removed: 0,
            before_token_estimate: before,
            after_token_estimate: before,
            events: seq![],
        }
    } else {
        let next = pruned_surface(surface, policy);
        let after = next.tokens() as u64;
        let removed = removed_chars(surface.items, policy);
        PruneOutcomeView {
            surface: next,
            rewritten: removed > 0,
            chars_removed: removed,
            before_token_estimate: before,
            after_token_estimate: after,
            events: seq![
                telemetry::event(
                    EnhancedEventKind::ContextPruneStarted,
                    telemetry::EnhancedEventFieldsView {
                        before_token_estimate: Some(before),
                        ..telemetry::EnhancedEventFieldsView::none()
                    },
                ),
                telemetry::event(
                    EnhancedEventKind::ContextPruneCompleted,
                    telemetry::EnhancedEventFieldsView {
                        before_token_estimate: Some(before),
                        after_token_estimate: Some(after),
                        chars_removed: Some(removed),
                        ..telemetry::EnhancedEventFieldsView::none()
                    },
                ),
            ],
        }
    }
}

/// Prunes the tool results of a surface when its estimate has reached
/// `trigger_tokens`, the number of tokens from which on the context window
/// counts as under pressure.
pub fn apply_pressure_prune(
    surface: &ModelVisibleSurface,
    policy: ToolResultPrunePolicy,
    trigger_tokens: u64,
) -> (r: PruneOutcome)
    ensures
        r@ == prune_result(surface@, policy, trigger_tokens),
{
    let before: u64 = surface.estimated_tokens();
    if before < trigger_tokens {
        let events: Vec<EnhancedEvent> = Vec::new();
        assert(events.deep_view() =~= seq![]);
        return PruneOutcome {
            surface: surface.clone(),
            rewritten: false,
            chars_removed: 0,
            before_token_estimate: before,
            after_token_estimate: before,
            events,
        };
    }
    let mut events: Vec<EnhancedEvent> = Vec::new();
    events.push(
        EnhancedEvent::new(
            EnhancedEventKind::ContextPruneStarted,
            EnhancedEventFields {
                before_token_estimate: Some(before),
                ..EnhancedEventFields::default()
            },
        ),
    );
    let mut next = ModelVisibleSurface {
        items: prune_items(&surface.items, policy),
        generation: surface.generation,
    };
    let chars_removed: u64 = surface.char_count().saturating_sub(next.char_count()) as u64;
    let step: u64 = if chars_removed > 0 {
        1
    } else {
        0
    };
    next.generation = surface.generation.saturating_add(step);
    let after: u64 = next.estimated_tokens();
    events.push(
        EnhancedEvent::new(
            EnhancedEventKind::ContextPruneCompleted,
            EnhancedEventFields {
                before_token_estimate: Some(before),
                after_token_estimate: Some(after),
                chars_removed: Some(chars_removed),
                ..EnhancedEventFields::default()
            },
        ),
    );
    assert(events.deep_view() =~= prune_result(surface@, policy, trigger_tokens).events);
    PruneOutcome {
        rewritten: chars_removed > 0,
        chars_removed,
        before_token_estimate: before,
        after_token_estimate: after,
        surface: next,
        events,
    }
}

/// The items once their tool results are pruned.
fn prune_items(items: &Vec<SurfaceItem>, policy: ToolResultPrunePolicy) -> (r: Vec<SurfaceItem>)
    ensures
        r.deep_view() == pruned_items(items.deep_view(), policy),
{
    let mut out: Vec<SurfaceItem> = Vec::new();
    let mut i: usize = 0;
    while i < items.len()
        invariant
            i <= items.len(),
            out.deep_view() =~= pruned_items(items.deep_view(), policy).take(i as int),
        decreases items.len() - i,
    {
        let item = match &items[i] {
            SurfaceItem::ToolResult { call_id, tool_name, tool_type, blocks } => {
                let mut kept = blocks.clone();
                prune_blocks(&mut kept, policy);
                SurfaceItem::ToolResult {
                    call_id: call_id.clone(),
                    tool_name: tool_name.clone(),
                    tool_type: tool_type.clone(),
                    blocks: kept,
                }
            },
            other => other.clone(),
        };
        let ghost before = out.deep_view();
        assert(item@ == pruned_item(items@[i as int]@, policy));
        out.push(item);
        assert(out.deep_view() =~= before.push(item@));
        i = i + 1;
    }
    assert(out.deep_view() =~= pruned_items(items.deep_view(), policy));
    out
}

/// The position in a text of length `len` that is nearest to `n - start`.
fn clamp_position(n: u128, start: u128, len: usize) -> (r: usize)
    ensures
        r as int == within(n - start, len as nat),
{
    if n <= start {
        0
    } else if n - start >= len as u128 {
        len
    } else {
        (n - start) as usize
    }
}

/// What remains of one text of a result that is cut.
fn cut(text: &str, start: u128, head_end: u128, tail_start: u128, marker: &str) -> (r: String)
    requires
        start + text@.len() <= u128::MAX,
    ensures
        r@ == cut_text(text@, start as int, head_end as int, tail_start as int, marker@),
{
    let chars = text::characters(text);
    let head: usize = clamp_position(head_end, start, chars.len());
    let tail: usize = clamp_position(tail_start, start, chars.len());
    let mut out = text::text_of(&chars, 0, head);
    if start <= head_end && head_end < start + chars.len() as u128 {
        out.append(marker);
    }
    let rest = text::text_of(&chars, tail, chars.len());
    out.append(rest.as_str());
    assert(out@ =~= cut_text(text@, start as int, head_end as int, tail_start as int, marker@));
    out
}

/// The number of characters in the first blocks never exceeds that of all.
pub proof fn lemma_blocks_chars_take(blocks: Seq<ContentBlockView>, i: int)
    requires
        0 <= i <= blocks.len(),
    ensures
        blocks_chars(blocks.take(i)) <= blocks_chars(blocks),
    decreases blocks.len() - i,
{
    if i == blocks.len() {
        assert(blocks.take(i) =~= blocks);
    } else {
        lemma_blocks_chars_take(blocks, i + 1);
        assert(blocks.take(i + 1).drop_last() =~= blocks.take(i));
    }
}

/// Prunes the blocks of one tool result and tells how many characters were left
/// out. One cursor runs over the characters of all text blocks, so that one
/// marker stands for everything that is left out.
pub fn prune_blocks(blocks: &mut Vec<ContentBlock>, policy: ToolResultPrunePolicy) -> (r: u128)
    ensures
        final(blocks).deep_view() == pruned_blocks(old(blocks).deep_view(), policy),
        r as int == (if is_cut(blocks_chars(old(blocks).deep_view()), policy) {
            blocks_chars(old(blocks).deep_view()) - policy.keep_head_chars - policy.keep_tail_chars
        } else {
            0
        }),
{
    let ghost all = blocks.deep_view();
    let total: u128 = count_blocks_chars(blocks);
    if total < policy.min_text_chars as u128 {
        return 0;
    }
    let keep: u128 = policy.keep_head_chars as u128 + policy.keep_tail_chars as u128;
    if total <= keep {
        return 0;
    }
    let head_end: u128 = policy.keep_head_chars as u128;
    let tail_start: u128 = total - policy.keep_tail_chars as u128;
    let omitted: u128 = tail_start - head_end;
    let mut marker = "\n[... omitted ".to_owned();
    marker.append(text::decimal_text(omitted).as_str());
    marker.append(" characters ...]\n");
    assert(marker@ =~= marker_text(omitted as nat));
    let mut cursor: u128 = 0;
    let mut i: usize = 0;
    while i < blocks.len()
        invariant
            i <= blocks.len(),
            blocks.len() == all.len(),
            is_cut(blocks_chars(all), policy),
            total as nat == blocks_chars(all),
            head_end as int == policy.keep_head_chars,
            tail_start as int == total - policy.keep_tail_chars,
            marker@ == marker_text((tail_start - head_end) as nat),
            cursor as nat == blocks_chars(all.take(i as int)),
            forall|k: int|
                0 <= k < i ==> #[trigger] blocks.deep_view()[k] == cut_block(all, policy, k),
            forall|k: int| i <= k < all.len() ==> #[trigger] blocks.deep_view()[k] == all[k],
        decreases blocks.len() - i,
    {
        proof {
            lemma_blocks_chars_take(all, i + 1);
            assert(all.take(i + 1).drop_last() =~= all.take(i as int));
            assert(all.take(i + 1).last() == all[i as int]);
            assert(blocks.deep_view()[i as int] == all[i as int]);
        }
        let ghost before = blocks.deep_view();
        let length: usize = count_block_chars(&blocks[i]);
        let kept = match &blocks[i].text {
            Some(t) => Some(cut(t.as_str(), cursor, head_end, tail_start, marker.as_str())),
            None => None,
        };
        let kind = blocks[i].kind.clone();
        let block = ContentBlock { kind, text: kept };
        assert(block@ == cut_block(all, policy, i as int));
        blocks.set(i, block);
        assert(blocks.deep_view() =~= before.update(i as int, block@));
        cursor = cursor + length as u128;
        i = i + 1;
    }
    assert(blocks.deep_view() =~= pruned_blocks(all, policy));
    omitted
}

/// The texts of all blocks, one after the other.
pub open spec fn joined_text(blocks: Seq<ContentBlockView>) -> Seq<char>
    decreases blocks.len(),
{
    if blocks.len() == 0 {
        seq![]
    } else {
        joined_text(blocks.drop_last()) + (match blocks.last().text {
            Some(t) => t,
            None => seq![],
        })
    }
}

proof fn lemma_joined_len(blocks: Seq<ContentBlockView>)
    ensures
        joined_text(blocks).len() == blocks_chars(blocks),
    decreases blocks.len(),
{
    if blocks.len() > 0 {
        lemma_joined_len(blocks.drop_last());
    }
}

proof fn lemma_joined_take(blocks: Seq<ContentBlockView>, i: int)
    requires
        0 <= i <= blocks.len(),
    ensures
        blocks_chars(blocks.take(i)) <= blocks_chars(blocks),
        joined_text(blocks.take(i)) == joined_text(blocks).take(
            blocks_chars(blocks.take(i)) as int,
        ),
    decreases blocks.len() - i,
{
    lemma_joined_len(blocks);
    if i == blocks.len() {
        assert(blocks.take(i) =~= blocks);
        assert(joined_text(blocks).take(joined_text(blocks).len() as int) =~= joined_text(blocks));
    } else {
        lemma_joined_take(blocks, i + 1);
        lemma_joined_len(blocks.take(i));
        lemma_joined_len(blocks.take(i + 1));
        assert(blocks.take(i + 1).drop_last() =~= blocks.take(i));
        let next = joined_text(blocks.take(i + 1));
        assert(joined_text(blocks.take(i)) =~= next.take(joined_text(blocks.take(i)).len() as int));
        assert(joined_text(blocks.take(i)) =~= joined_text(blocks).take(
            joined_text(blocks.take(i)).len() as int,
        ));
    }
}

/// What is left of the first `c` characters of a whole result.
spec fn cut_prefix(
    whole: Seq<char>,
    c: int,
    head_end: int,
    tail_start: int,
    marker: Seq<char>,
) -> Seq<char> {
    whole.take(if c < head_end {
        c
    } else {
        head_end
    }) + (if head_end < c {
        marker
    } else {
        seq![]
    }) + (if c > tail_start {
        whole.subrange(tail_start, c)
    } else {
        seq![]
    })
}

proof fn lemma_cut_step(
    whole: Seq<char>,
    c: int,
    t: Seq<char>,
    head_end: int,
    tail_start: int,
    marker: Seq<char>,
)
    requires
        0 <= c,
        c + t.len() <= whole.len(),
        t == whole.subrange(c, c + t.len()),
        0 <= head_end < tail_start <= whole.len(),
    ensures
        cut_prefix(whole, c, head_end, tail_start, marker) + cut_text(
            t,
            c,
            head_end,
            tail_start,
            marker,
        ) == cut_prefix(whole, c + t.len(), head_end, tail_start, marker),
{
    let front = t.take(within(head_end - c, t.len()));
    let back = t.skip(within(tail_start - c, t.len()));
    let d = c + t.len();
    let old_head = whole.take(if c < head_end {
        c
    } else {
        head_end
    });
    let new_head = whole.take(if d < head_end {
        d
    } else {
        head_end
    });
    let old_tail = if c > tail_start {
        whole.subrange(tail_start, c)
    } else {
        seq![]
    };
    let new_tail = if d > tail_start {
        whole.subrange(tail_start, d)
    } else {
        seq![]
    };
    assert(new_head =~= old_head + front);
    assert(new_tail =~= old_tail + back);
    let result = cut_prefix(whole, c, head_end, tail_start, marker) + cut_text(
        t,
        c,
        head_end,
        tail_start,
        marker,
    );
    if head_end < c {
        assert(front =~= seq![]);
        assert(result =~= new_head + marker + new_tail);
    } else if head_end < d {
        assert(old_tail =~= seq![]);
        assert(result =~= new_head + marker + new_tail);
    } else {
        assert(old_tail =~= seq![]);
        assert(back =~= seq![]);
        assert(result =~= new_head);
    }
    assert(result =~= cut_prefix(whole, d, head_end, tail_start, marker));
}

proof fn lemma_cut_joined(blocks: Seq<ContentBlockView>, policy: ToolResultPrunePolicy, i: int)
    requires
        0 <= i <= blocks.len(),
        is_cut(blocks_chars(blocks), policy),
    ensures
        joined_text(pruned_blocks(blocks, policy).take(i)) == cut_prefix(
            joined_text(blocks),
            blocks_chars(blocks.take(i)) as int,
            policy.keep_head_chars as int,
            blocks_chars(blocks) - policy.keep_tail_chars,
            marker_text(
                (blocks_chars(blocks) - policy.keep_tail_chars - policy.keep_head_chars) as nat,
            ),
        ),
    decreases i,
{
    let whole = joined_text(blocks);
    let cut = pruned_blocks(blocks, policy);
    let head_end = policy.keep_head_chars as int;
    let tail_start = blocks_chars(blocks) - policy.keep_tail_chars;
    let marker = marker_text((tail_start - head_end) as nat);
    lemma_joined_len(blocks);
    if i == 0 {
        assert(joined_text(cut.take(0)) =~= seq![]);
        assert(cut_prefix(whole, 0, head_end, tail_start, marker) =~= seq![]);
    } else {
        lemma_cut_joined(blocks, policy, i - 1);
        lemma_joined_take(blocks, i - 1);
        lemma_joined_take(blocks, i);
        lemma_joined_len(blocks.take(i - 1));
        lemma_joined_len(blocks.take(i));
        assert(blocks.take(i).drop_last() =~= blocks.take(i - 1));
        assert(cut.take(i).drop_last() =~= cut.take(i - 1));
        let c = blocks_chars(blocks.take(i - 1)) as int;
        match blocks[i - 1].text {
            Some(t) => {
                assert(t =~= whole.subrange(c, c + t.len())) by {
                    let upto = joined_text(blocks.take(i));
                    assert(upto =~= joined_text(blocks.take(i - 1)) + t);
                    assert forall|k: int| 0 <= k < t.len() implies t[k] == whole[c + k] by {
                        assert(upto[c + k] == t[k]);
                        assert(whole.take(c + t.len())[c + k] == whole[c + k]);
                    }
                }
                lemma_cut_step(whole, c, t, head_end, tail_start, marker);
            },
            None => {
                assert(joined_text(cut.take(i)) =~= joined_text(cut.take(i - 1)));
            },
        }
    }
}

/// The text blocks of a tool result are pruned as one text: what stays is the
/// head, one marker that names how much was left out, and the tail.
pub proof fn law_blocks_are_cut_as_one_text(
    blocks: Seq<ContentBlockView>,
    policy: ToolResultPrunePolicy,
)
    ensures
        is_cut(blocks_chars(blocks), policy) ==> joined_text(pruned_blocks(blocks, policy)) == ({
            let whole = joined_text(blocks);
            let tail_start = whole.len() - policy.keep_tail_chars;
            whole.take(policy.keep_head_chars as int) + marker_text(
                (tail_start - policy.keep_head_chars) as nat,
            ) + whole.skip(tail_start)
        }),
        !is_cut(blocks_chars(blocks), policy) ==> pruned_blocks(blocks, policy) == blocks,
{
    lemma_joined_len(blocks);
    if is_cut(blocks_chars(blocks), policy) {
        let cut = pruned_blocks(blocks, policy);
        let whole = joined_text(blocks);
        lemma_cut_joined(blocks, policy, blocks.len() as int);
        assert(cut.take(blocks.len() as int) =~= cut);
        assert(blocks.take(blocks.len() as int) =~= blocks);
        let tail_start = whole.len() - policy.keep_tail_chars;
        assert(whole.skip(tail_start) =~= whole.subrange(tail_start, whole.len() as int));
    }
}

/// Pruning keeps the order, the number and the kind of all items and blocks. It
/// changes nothing but the texts of tool results.
pub proof fn law_pruning_keeps_structure(
    surface: ModelVisibleSurfaceView,
    policy: ToolResultPrunePolicy,
    trigger_tokens: u64,
    i: int,
)
    requires
        0 <= i < surface.items.len(),
    ensures
        ({
            let after = prune_result(surface, policy, trigger_tokens).surface;
            &&& after.items.len() == surface.items.len()
            &&& match surface.items[i] {
                SurfaceItemView::ToolResult { call_id, tool_name, tool_type, blocks } => {
                    &&& after.items[i] matches SurfaceItemView::ToolResult {
                        call_id: id,
                        tool_name: name,
                        tool_type: kind,
                        blocks: kept,
                    }
                    &&& id == call_id
                    &&& name == tool_name
                    &&& kind == tool_type
                    &&& kept.len() == blocks.len()
                    &&& forall|k: int|
                        0 <= k < blocks.len() ==> (#[trigger] kept[k]).kind == blocks[k].kind
                            && kept[k].text is Some == blocks[k].text is Some
                },
                other => after.items[i] == other,
            }
        }),
{
}

proof fn lemma_pruning_keeps_ids(items: Seq<SurfaceItemView>, policy: ToolResultPrunePolicy, i: int)
    requires
        0 <= i <= items.len(),
    ensures
        called_ids(pruned_items(items, policy).take(i)) == called_ids(items.take(i)),
        answered_ids(pruned_items(items, policy).take(i)) == answered_ids(items.take(i)),
    decreases i,
{
    let after = pruned_items(items, policy);
    if i == 0 {
        assert(after.take(0) =~= seq![]);
        assert(items.take(0) =~= seq![]);
    } else {
        lemma_pruning_keeps_ids(items, policy, i - 1);
        items.lemma_filter_map_take_succ(|item: SurfaceItemView| called_id(item), i - 1);
        items.lemma_filter_map_take_succ(|item: SurfaceItemView| answered_id(item), i - 1);
        after.lemma_filter_map_take_succ(|item: SurfaceItemView| called_id(item), i - 1);
        after.lemma_filter_map_take_succ(|item: SurfaceItemView| answered_id(item), i - 1);
        assert(after[i - 1] == pruned_item(items[i - 1], policy));
    }
}

/// Calls and results stay paired through pruning exactly as they were.
pub proof fn law_pruning_keeps_pairs(
    surface: ModelVisibleSurfaceView,
    policy: ToolResultPrunePolicy,
    trigger_tokens: u64,
)
    ensures
        prune_result(surface, policy, trigger_tokens).surface.pairs_intact()
            == surface.pairs_intact(),
{
    let n = surface.items.len() as int;
    lemma_pruning_keeps_ids(surface.items, policy, n);
    assert(surface.items.take(n) =~= surface.items);
    assert(pruned_items(surface.items, policy).take(n) =~= pruned_items(surface.items, policy));
}

/// Below the trigger nothing is rewritten. A surface that counts as rewritten
/// became smaller, its estimate did not grow, and its generation moved on unless
/// it had reached its end.
pub proof fn law_pruning_makes_progress(
    surface: ModelVisibleSurfaceView,
    policy: ToolResultPrunePolicy,
    trigger_tokens: u64,
)
    ensures
        ({
            let outcome = prune_result(surface, policy, trigger_tokens);
            &&& surface.tokens() < trigger_tokens ==> !outcome.rewritten && outcome.surface
                == surface && outcome.events.len() == 0
            &&& outcome.rewritten <==> outcome.chars_removed > 0
            &&& outcome.rewritten ==> outcome.surface.size() + outcome.chars_removed
                == surface.size()
            &&& outcome.rewritten ==> outcome.after_token_estimate
                <= outcome.before_token_estimate
            &&& outcome.rewritten && surface.generation < u64::MAX ==> outcome.surface.generation
                == surface.generation + 1
            &&& !outcome.rewritten ==> outcome.surface.generation == surface.generation
        }),
{
}

/// Every text that is shown counts, character by character, whoever speaks: a
/// surface with one message of `n` characters has size `n`, and a token for every
/// four of them, the last four perhaps not whole.
pub proof fn law_every_message_counts(t: Seq<char>, generation: u64)
    requires
        t.len() <= usize::MAX,
    ensures
        forall|item: SurfaceItemView|
            item == (SurfaceItemView::User { text: t }) || item == (SurfaceItemView::System {
                text: t,
            }) || item == (SurfaceItemView::Developer { text: t }) || item == (
            SurfaceItemView::Assistant { text: t }) ==> {
                let one = #[trigger] alone(item, generation);
                &&& one.size() == t.len()
                &&& t.len() <= 4 * one.tokens() < t.len() + 4
            },
{
    assert forall|item: SurfaceItemView|
        item == (SurfaceItemView::User { text: t }) || item == (SurfaceItemView::System {
            text: t,
        }) || item == (SurfaceItemView::Developer { text: t }) || item == (
        SurfaceItemView::Assistant { text: t }) implies {
        let one = #[trigger] alone(item, generation);
        &&& one.size() == t.len()
        &&& t.len() <= 4 * one.tokens() < t.len() + 4
    } by {
        lemma_alone(item, generation);
    }
}

/// A surface that shows one item.
pub open spec fn alone(item: SurfaceItemView, generation: u64) -> ModelVisibleSurfaceView {
    ModelVisibleSurfaceView { items: seq![item], generation }
}

proof fn lemma_alone(item: SurfaceItemView, generation: u64)
    ensures
        items_size(seq![item]) == item_size(item),
        items_bytes(seq![item]) == item_bytes(item),
        alone(item, generation).items == seq![item],
{
    assert(seq![item].drop_last() =~= seq![]);
    reveal_with_fuel(items_size, 2);
    reveal_with_fuel(items_bytes, 2);
}

/// Nothing that is shown is left out of the size, and nothing counts twice: a
/// surface without items has no size, and an item that is appended adds what it has
/// by itself.
pub proof fn law_size_adds_up(
    surface: ModelVisibleSurfaceView,
    item: SurfaceItemView,
    generation: u64,
)
    ensures
        surface.items.len() == 0 ==> surface.size() == 0 && surface.tokens() == 0,
        ({
            let longer = ModelVisibleSurfaceView {
                items: surface.items.push(item),
                generation,
            };
            let sum = surface.size() + alone(item, generation).size();
            &&& sum <= usize::MAX ==> longer.size() == sum
            &&& sum > usize::MAX ==> longer.size() == usize::MAX
        }),
        surface.size() <= 4 * surface.tokens() < surface.size() + 4,
{
    lemma_alone(item, generation);
    assert(surface.items.push(item).drop_last() =~= surface.items);
}

/// A tool call counts by the bytes of what names it and the characters of its
/// arguments; a control entry by its bytes. A tool result counts by the bytes of what
/// names it and the characters of each block.
pub proof fn law_tools_count_by_name_and_text(
    call_id: Seq<char>,
    tool_name: Seq<char>,
    tool_type: Seq<char>,
    t: Seq<char>,
    blocks: Seq<ContentBlockView>,
    block: ContentBlockView,
    generation: u64,
)
    ensures
        ({
            let names = vstd::utf8::encode_utf8(call_id).len() + vstd::utf8::encode_utf8(
                tool_name,
            ).len() + vstd::utf8::encode_utf8(tool_type).len();
            let call = SurfaceItemView::ToolCall { call_id, tool_name, tool_type, arguments: t };
            let bare = SurfaceItemView::ToolResult {
                call_id,
                tool_name,
                tool_type,
                blocks: seq![],
            };
            let result = SurfaceItemView::ToolResult { call_id, tool_name, tool_type, blocks };
            let longer = SurfaceItemView::ToolResult {
                call_id,
                tool_name,
                tool_type,
                blocks: blocks.push(block),
            };
            let more = match block.text {
                Some(shown) => shown.len(),
                None => 0,
            };
            &&& names + t.len() <= usize::MAX ==> alone(call, generation).size() == names
                + t.len()
            &&& names <= usize::MAX ==> alone(bare, generation).size() == names
            &&& alone(result, generation).size() + more <= usize::MAX ==> alone(
                longer,
                generation,
            ).size() == alone(result, generation).size() + more
        }),
        ({
            let entry = SurfaceItemView::Control { key: call_id, value: t };
            let length = vstd::utf8::encode_utf8(call_id).len() + vstd::utf8::encode_utf8(t).len();
            length <= usize::MAX ==> alone(entry, generation).size() == length
        }),
{
    lemma_alone(
        SurfaceItemView::ToolCall { call_id, tool_name, tool_type, arguments: t },
        generation,
    );
    lemma_alone(
        SurfaceItemView::ToolResult { call_id, tool_name, tool_type, blocks: seq![] },
        generation,
    );
    lemma_alone(SurfaceItemView::ToolResult { call_id, tool_name, tool_type, blocks }, generation);
    lemma_alone(
        SurfaceItemView::ToolResult {
            call_id,
            tool_name,
            tool_type,
            blocks: blocks.push(block),
        },
        generation,
    );
    lemma_alone(SurfaceItemView::Control { key: call_id, value: t }, generation);
    assert(blocks.push(block).drop_last() =~= blocks);
}

/// The bytes of a surface cover every text of it: messages and arguments by their
/// bytes, and so blocks and names.
pub proof fn law_bytes_cover_every_text(
    items: Seq<SurfaceItemView>,
    item: SurfaceItemView,
    call_id: Seq<char>,
    tool_name: Seq<char>,
    tool_type: Seq<char>,
    t: Seq<char>,
    blocks: Seq<ContentBlockView>,
    block: ContentBlockView,
)
    ensures
        items_bytes(seq![]) == 0,
        items_bytes(items.push(item)) == items_bytes(items) + items_bytes(seq![item]),
        ({
            let length = vstd::utf8::encode_utf8(t).len();
            let names = vstd::utf8::encode_utf8(call_id).len() + vstd::utf8::encode_utf8(
                tool_name,
            ).len() + vstd::utf8::encode_utf8(tool_type).len();
            let more = match block.text {
                Some(shown) => vstd::utf8::encode_utf8(shown).len(),
                None => 0,
            };
            &&& items_bytes(seq![SurfaceItemView::User { text: t }]) == length
            &&& items_bytes(seq![SurfaceItemView::System { text: t }]) == length
            &&& items_bytes(seq![SurfaceItemView::Developer { text: t }]) == length
            &&& items_bytes(seq![SurfaceItemView::Assistant { text: t }]) == length
            &&& items_bytes(
                seq![SurfaceItemView::ToolCall { call_id, tool_name, tool_type, arguments: t }],
            ) == names + length
            &&& items_bytes(
                seq![
                    SurfaceItemView::ToolResult { call_id, tool_name, tool_type, blocks: seq![] },
                ],
            ) == names
            &&& items_bytes(
                seq![
                    SurfaceItemView::ToolResult {
                        call_id,
                        tool_name,
                        tool_type,
                        blocks: blocks.push(block),
                    },
                ],
            ) == items_bytes(
                seq![SurfaceItemView::ToolResult { call_id, tool_name, tool_type, blocks }],
            ) + more
            &&& items_bytes(seq![SurfaceItemView::Control { key: call_id, value: t }])
                == vstd::utf8::encode_utf8(call_id).len() + length
        }),
        forall|n: nat| n <= usize::MAX ==> #[trigger] capped(n) == n,
        forall|n: nat| n > usize::MAX ==> #[trigger] capped(n) == usize::MAX,
{
    assert(items.push(item).drop_last() =~= items);
    assert(blocks.push(block).drop_last() =~= blocks);
    lemma_alone(item, 0);
    lemma_alone(SurfaceItemView::User { text: t }, 0);
    lemma_alone(SurfaceItemView::System { text: t }, 0);
    lemma_alone(SurfaceItemView::Developer { text: t }, 0);
    lemma_alone(SurfaceItemView::Assistant { text: t }, 0);
    lemma_alone(SurfaceItemView::ToolCall { call_id, tool_name, tool_type, arguments: t }, 0);
    lemma_alone(SurfaceItemView::ToolResult { call_id, tool_name, tool_type, blocks: seq![] }, 0);
    lemma_alone(SurfaceItemView::ToolResult { call_id, tool_name, tool_type, blocks }, 0);
    lemma_alone(
        SurfaceItemView::ToolResult {
            call_id,
            tool_name,
            tool_type,
            blocks: blocks.push(block),
        },
        0,
    );
    lemma_alone(SurfaceItemView::Control { key: call_id, value: t }, 0);
}

/// The characters of a result's blocks, those of each behind those of the one before.
pub open spec fn run_together(blocks: Seq<ContentBlockView>) -> Seq<char> {
    blocks.map_values(
        |block: ContentBlockView|
            match block.text {
                Some(t) => t,
                None => seq![],
            },
    ).flatten()
}

proof fn lemma_run_together(blocks: Seq<ContentBlockView>)
    ensures
        run_together(blocks) == joined_text(blocks),
    decreases blocks.len(),
{
    let parts = blocks.map_values(
        |block: ContentBlockView|
            match block.text {
                Some(t) => t,
                None => seq![],
            },
    );
    parts.lemma_flatten_and_flatten_alt_are_equivalent();
    if blocks.len() > 0 {
        let front = blocks.drop_last();
        lemma_run_together(front);
        let before = front.map_values(
            |block: ContentBlockView|
                match block.text {
                    Some(t) => t,
                    None => seq![],
                },
        );
        before.lemma_flatten_and_flatten_alt_are_equivalent();
        assert(parts.drop_last() =~= before);
    }
}

/// Under pressure every long result is cut, whichever tool it comes from and wherever
/// it stands: what it shows is its head, a note of how many characters were left out,
/// and its tail. A result that is not long, and everything while there is no pressure,
/// is shown as it was.
pub proof fn law_pressure_cuts_every_long_result(
    surface: ModelVisibleSurfaceView,
    policy: ToolResultPrunePolicy,
    trigger_tokens: u64,
    i: int,
)
    requires
        0 <= i < surface.items.len(),
    ensures
        ({
            let after = prune_result(surface, policy, trigger_tokens).surface.items;
            &&& after.len() == surface.items.len()
            &&& surface.tokens() < trigger_tokens ==> after == surface.items
            &&& surface.items[i] matches SurfaceItemView::ToolResult { blocks, .. } ==> {
                let whole = run_together(blocks);
                let head = policy.keep_head_chars as int;
                let tail = policy.keep_tail_chars as int;
                &&& after[i] matches SurfaceItemView::ToolResult { blocks: kept, .. }
                &&& surface.tokens() >= trigger_tokens && whole.len() >= policy.min_text_chars
                    && whole.len() > head + tail ==> run_together(kept) == whole.take(head)
                    + "\n[... omitted "@ + text::decimal((whole.len() - head - tail) as nat)
                    + " characters ...]\n"@ + whole.skip(whole.len() - tail)
                &&& whole.len() < policy.min_text_chars || whole.len() <= head + tail ==> kept
                    == blocks
            }
        }),
{
    let after = prune_result(surface, policy, trigger_tokens).surface.items;
    if let SurfaceItemView::ToolResult { blocks, .. } = surface.items[i] {
        lemma_run_together(blocks);
        lemma_joined_len(blocks);
        law_blocks_are_cut_as_one_text(blocks, policy);
        if let SurfaceItemView::ToolResult { blocks: kept, .. } = after[i] {
            lemma_run_together(kept);
            let whole = run_together(blocks);
            let head = policy.keep_head_chars as int;
            let tail = policy.keep_tail_chars as int;
            if surface.tokens() >= trigger_tokens && whole.len() >= policy.min_text_chars
                && whole.len() > head + tail {
                assert(run_together(kept) =~= whole.take(head) + "\n[... omitted "@
                    + text::decimal((whole.len() - head - tail) as nat) + " characters ...]\n"@
                    + whole.skip(whole.len() - tail));
            }
        }
    }
}

/// Pruning says truly what it did: it counts as a rewriting exactly where the surface
/// became smaller, it names by how much, and only then the generation goes on. Its
/// events tell the estimates before and after.
pub proof fn law_pruning_tells_what_it_did(
    surface: ModelVisibleSurfaceView,
    policy: ToolResultPrunePolicy,
    trigger_tokens: u64,
)
    ensures
        ({
            let outcome = prune_result(surface, policy, trigger_tokens);
            let after = outcome.surface;
            &&& outcome.rewritten == (after.size() < surface.size())
            &&& after.size() < surface.size() ==> outcome.chars_removed == surface.size()
                - after.size()
            &&& after.size() >= surface.size() ==> outcome.chars_removed == 0
            &&& outcome.before_token_estimate == surface.tokens()
            &&& outcome.after_token_estimate == after.tokens()
            &&& !outcome.rewritten ==> after.generation == surface.generation
            &&& outcome.rewritten && surface.generation < u64::MAX ==> after.generation
                == surface.generation + 1
            &&& surface.tokens() < trigger_tokens ==> outcome.events.len() == 0
            &&& surface.tokens() >= trigger_tokens ==> {
                &&& outcome.events.len() == 2
                &&& outcome.events[0].kind == EnhancedEventKind::ContextPruneStarted
                &&& outcome.events[0].fields.before_token_estimate == Some(
                    surface.tokens() as u64,
                )
                &&& outcome.events[1].kind == EnhancedEventKind::ContextPruneCompleted
                &&& outcome.events[1].fields.before_token_estimate == Some(
                    surface.tokens() as u64,
                )
                &&& outcome.events[1].fields.after_token_estimate == Some(after.tokens() as u64)
                &&& outcome.events[1].fields.chars_removed == Some(outcome.chars_removed)
            }
        }),
{
}

/// The pairs of a surface are intact exactly where its calls, read off in order, and
/// its results, read off in order, name the same identifiers. What is neither a call
/// nor a result has no part in it.
pub proof fn law_pairs_go_by_calls_and_results(
    surface: ModelVisibleSurfaceView,
    call_id: Seq<char>,
    tool_name: Seq<char>,
    tool_type: Seq<char>,
    arguments: Seq<char>,
    blocks: Seq<ContentBlockView>,
    other: SurfaceItemView,
    other_id: Seq<char>,
    generation: u64,
)
    ensures
        surface.items.len() == 0 ==> surface.pairs_intact(),
        !(other is ToolCall) && !(other is ToolResult) ==> (ModelVisibleSurfaceView {
            items: surface.items.push(other),
            generation,
        }).pairs_intact() == surface.pairs_intact(),
        surface.pairs_intact() ==> !(ModelVisibleSurfaceView {
            items: surface.items.push(
                SurfaceItemView::ToolCall { call_id, tool_name, tool_type, arguments },
            ),
            generation,
        }).pairs_intact() && !(ModelVisibleSurfaceView {
            items: surface.items.push(
                SurfaceItemView::ToolResult { call_id, tool_name, tool_type, blocks },
            ),
            generation,
        }).pairs_intact() && (ModelVisibleSurfaceView {
            items: surface.items.push(
                SurfaceItemView::ToolCall { call_id, tool_name, tool_type, arguments },
            ).push(SurfaceItemView::ToolResult { call_id, tool_name, tool_type, blocks }),
            generation,
        }).pairs_intact(),
        surface.pairs_intact() && other_id != call_id ==> !(ModelVisibleSurfaceView {
            items: surface.items.push(
                SurfaceItemView::ToolCall { call_id, tool_name, tool_type, arguments },
            ).push(
                SurfaceItemView::ToolResult { call_id: other_id, tool_name, tool_type, blocks },
            ),
            generation,
        }).pairs_intact(),
{
    let called = |item: SurfaceItemView| called_id(item);
    let answered = |item: SurfaceItemView| answered_id(item);
    let call = SurfaceItemView::ToolCall { call_id, tool_name, tool_type, arguments };
    let result = SurfaceItemView::ToolResult { call_id, tool_name, tool_type, blocks };
    if surface.items.len() == 0 {
        assert(surface.items.filter_map(called) =~= seq![]) by {
            reveal(Seq::filter_map);
        }
        assert(surface.items.filter_map(answered) =~= seq![]) by {
            reveal(Seq::filter_map);
        }
    }
    lemma_ids_push(surface.items, other);
    lemma_ids_push(surface.items, call);
    lemma_ids_push(surface.items, result);
    lemma_ids_push(surface.items.push(call), result);
    let stray = SurfaceItemView::ToolResult { call_id: other_id, tool_name, tool_type, blocks };
    lemma_ids_push(surface.items.push(call), stray);
    if surface.pairs_intact() {
        let unpaired = surface.items.push(call).push(stray);
        assert(called_ids(unpaired).last() == call_id);
        assert(answered_ids(unpaired).last() == other_id);
        assert(called_ids(surface.items.push(call)).len() != answered_ids(
            surface.items.push(call),
        ).len());
        assert(called_ids(surface.items.push(result)).len() != answered_ids(
            surface.items.push(result),
        ).len());
    }
}

proof fn lemma_ids_push(items: Seq<SurfaceItemView>, item: SurfaceItemView)
    ensures
        called_ids(items.push(item)) == (match called_id(item) {
            Some(id) => called_ids(items).push(id),
            None => called_ids(items),
        }),
        answered_ids(items.push(item)) == (match answered_id(item) {
            Some(id) => answered_ids(items).push(id),
            None => answered_ids(items),
        }),
{
    let n = items.len() as int;
    let longer = items.push(item);
    longer.lemma_filter_map_take_succ(|i: SurfaceItemView| called_id(i), n);
    longer.lemma_filter_map_take_succ(|i: SurfaceItemView| answered_id(i), n);
    assert(longer.take(n) =~= items);
    assert(longer.take(n + 1) =~= longer);
}

} // verus!
