//! The items of a prompt, and the surface that they make for the model.

use crate::context_pruner::{
    ContentBlock, ContentBlockView, ModelVisibleSurface, ModelVisibleSurfaceView, SurfaceItem,
    SurfaceItemView,
};
use crate::search;
use crate::text;
use vstd::prelude::*;

verus! {

/// A part of a message.
#[derive(Debug, PartialEq, Eq)]
pub enum ContentItem {
    InputText { text: String },
    OutputText { text: String },
    /// Anything that is not text.
    Other { payload: String },
}

/// The model of [`ContentItem`].
#[verifier::ext_equal]
pub enum ContentItemView {
    InputText { text: Seq<char> },
    OutputText { text: Seq<char> },
    Other { payload: Seq<char> },
}

impl View for ContentItem {
    type V = ContentItemView;

    open spec fn view(&self) -> ContentItemView {
        match self {
            ContentItem::InputText { text } => ContentItemView::InputText { text: text@ },
            ContentItem::OutputText { text } => ContentItemView::OutputText { text: text@ },
            ContentItem::Other { payload } => ContentItemView::Other { payload: payload@ },
        }
    }
}

impl DeepView for ContentItem {
    type V = ContentItemView;

    open spec fn deep_view(&self) -> ContentItemView {
        self@
    }
}

impl Clone for ContentItem {
    fn clone(&self) -> (r: Self)
        ensures
            r@ == self@,
    {
        match self {
            ContentItem::InputText { text } => ContentItem::InputText { text: text.clone() },
            ContentItem::OutputText { text } => ContentItem::OutputText { text: text.clone() },
            ContentItem::Other { payload } => ContentItem::Other { payload: payload.clone() },
        }
    }
}

/// The body of a tool's output.
#[derive(Debug, PartialEq, Eq)]
pub enum OutputBody {
    Text(String),
    /// A list of parts, with the text that they make together.
    Content { text: Option<String> },
}

/// The model of [`OutputBody`].
#[verifier::ext_equal]
pub enum OutputBodyView {
    Text(Seq<char>),
    Content { text: Option<Seq<char>> },
}

impl View for OutputBody {
    type V = OutputBodyView;

    open spec fn view(&self) -> OutputBodyView {
        match self {
            OutputBody::Text(value) => OutputBodyView::Text(value@),
            OutputBody::Content { text } => OutputBodyView::Content { text: text.deep_view() },
        }
    }
}

impl DeepView for OutputBody {
    type V = OutputBodyView;

    open spec fn deep_view(&self) -> OutputBodyView {
        self@
    }
}

impl Clone for OutputBody {
    fn clone(&self) -> (r: Self)
        ensures
            r@ == self@,
    {
        match self {
            OutputBody::Text(value) => OutputBody::Text(value.clone()),
            OutputBody::Content { text } => OutputBody::Content { text: text.clone() },
        }
    }
}

/// The output of a tool.
#[derive(Debug, PartialEq, Eq)]
pub struct OutputPayload {
    pub body: OutputBody,
    /// Whether the tool succeeded, if it said so.
    pub success: Option<bool>,
}

/// The model of [`OutputPayload`].
#[verifier::ext_equal]
pub struct OutputPayloadView {
    pub body: OutputBodyView,
    pub success: Option<bool>,
}

impl View for OutputPayload {
    type V = OutputPayloadView;

    open spec fn view(&self) -> OutputPayloadView {
        OutputPayloadView {
            body: self.body.deep_view(),
            success: self.success,
        }
    }
}

impl DeepView for OutputPayload {
    type V = OutputPayloadView;

    open spec fn deep_view(&self) -> OutputPayloadView {
        self@
    }
}

impl Clone for OutputPayload {
    fn clone(&self) -> (r: Self)
        ensures
            r@ == self@,
    {
        OutputPayload {
            body: self.body.clone(),
            success: self.success,
        }
    }
}

/// An item of a prompt.
#[derive(Debug, PartialEq, Eq)]
pub enum ResponseItem {
    Message { role: String, content: Vec<ContentItem> },
    FunctionCall { call_id: String, name: String, arguments: String },
    FunctionCallOutput { call_id: Option<String>, name: Option<String>, output: OutputPayload },
    CustomToolCall { call_id: String, name: String, input: String },
    CustomToolCallOutput { call_id: String, name: Option<String>, output: OutputPayload },
    /// Anything that the runtime does not look at.
    Other { payload: String },
}

/// The model of [`ResponseItem`].
#[verifier::ext_equal]
pub enum ResponseItemView {
    Message { role: Seq<char>, content: Seq<ContentItemView> },
    FunctionCall { call_id: Seq<char>, name: Seq<char>, arguments: Seq<char> },
    FunctionCallOutput {
        call_id: Option<Seq<char>>,
        name: Option<Seq<char>>,
        output: OutputPayloadView,
    },
    CustomToolCall { call_id: Seq<char>, name: Seq<char>, input: Seq<char> },
    CustomToolCallOutput { call_id: Seq<char>, name: Option<Seq<char>>, output: OutputPayloadView },
    Other { payload: Seq<char> },
}

impl View for ResponseItem {
    type V = ResponseItemView;

    open spec fn view(&self) -> ResponseItemView {
        match self {
            ResponseItem::Message { role, content } => ResponseItemView::Message {
                role: role@,
                content: content.deep_view(),
            },
            ResponseItem::FunctionCall { call_id, name, arguments } => {
                ResponseItemView::FunctionCall {
                    call_id: call_id@,
                    name: name@,
                    arguments: arguments@,
                }
            },
            ResponseItem::FunctionCallOutput { call_id, name, output } => {
                ResponseItemView::FunctionCallOutput {
                    call_id: call_id.deep_view(),
                    name: name.deep_view(),
                    output: output.deep_view(),
                }
            },
            ResponseItem::CustomToolCall { call_id, name, input } => {
                ResponseItemView::CustomToolCall {
                    call_id: call_id@,
                    name: name@,
                    input: input@,
                }
            },
            ResponseItem::CustomToolCallOutput { call_id, name, output } => {
                ResponseItemView::CustomToolCallOutput {
                    call_id: call_id@,
                    name: name.deep_view(),
                    output: output.deep_view(),
                }
            },
            ResponseItem::Other { payload } => ResponseItemView::Other { payload: payload@ },
        }
    }
}

impl DeepView for ResponseItem {
    type V = ResponseItemView;

    open spec fn deep_view(&self) -> ResponseItemView {
        self@
    }
}

impl Clone for ResponseItem {
    fn clone(&self) -> (r: Self)
        ensures
            r@ == self@,
    {
        match self {
            ResponseItem::Message { role, content } => ResponseItem::Message {
                role: role.clone(),
                content: content.clone(),
            },
            ResponseItem::FunctionCall { call_id, name, arguments } => ResponseItem::FunctionCall {
                call_id: call_id.clone(),
                name: name.clone(),
                arguments: arguments.clone(),
            },
            ResponseItem::FunctionCallOutput { call_id, name, output } => {
                ResponseItem::FunctionCallOutput {
                    call_id: call_id.clone(),
                    name: name.clone(),
                    output: output.clone(),
                }
            },
            ResponseItem::CustomToolCall { call_id, name, input } => ResponseItem::CustomToolCall {
                call_id: call_id.clone(),
                name: name.clone(),
                input: input.clone(),
            },
            ResponseItem::CustomToolCallOutput { call_id, name, output } => {
                ResponseItem::CustomToolCallOutput {
                    call_id: call_id.clone(),
                    name: name.clone(),
                    output: output.clone(),
                }
            },
            ResponseItem::Other { payload } => ResponseItem::Other { payload: payload.clone() },
        }
    }
}

impl OutputBodyView {
    /// The text of a body, if it has one.
    pub open spec fn text(self) -> Option<Seq<char>> {
        match self {
            OutputBodyView::Text(t) => Some(t),
            OutputBodyView::Content { text } => text,
        }
    }
}

impl OutputBody {
    /// The text of the body, if it has one.
    pub fn to_text(&self) -> (r: Option<String>)
        ensures
            r.deep_view() == self@.text(),
    {
        match self {
            OutputBody::Text(t) => Some(t.clone()),
            OutputBody::Content { text } => text.clone(),
        }
    }
}

impl OutputPayload {
    /// An output that is a text.
    pub fn from_text(text: String) -> (r: Self)
        ensures
            r@ == (OutputPayloadView { body: OutputBodyView::Text(text@), success: None }),
    {
        OutputPayload { body: OutputBody::Text(text), success: None }
    }
}

/// The text of a part of a message.
pub open spec fn part_text(item: ContentItemView) -> Option<Seq<char>> {
    match item {
        ContentItemView::InputText { text } => Some(text),
        ContentItemView::OutputText { text } => Some(text),
        ContentItemView::Other { .. } => None,
    }
}

/// The texts of a message, each on lines of its own.
pub open spec fn message_text(content: Seq<ContentItemView>) -> Seq<char> {
    text::lines(content.filter_map(|item: ContentItemView| part_text(item)))
}

/// The texts of a message, each on lines of its own.
pub fn content_text(content: &Vec<ContentItem>) -> (r: String)
    ensures
        r@ == message_text(content.deep_view()),
{
    let ghost all = content.deep_view();
    let ghost pick = |item: ContentItemView| part_text(item);
    let mut texts: Vec<String> = Vec::new();
    let mut i: usize = 0;
    proof {
        assert(all.take(0).filter_map(pick) =~= seq![]) by {
            reveal(Seq::filter_map);
        }
    }
    while i < content.len()
        invariant
            i <= content.len(),
            all == content.deep_view(),
            pick == (|item: ContentItemView| part_text(item)),
            texts.deep_view() =~= all.take(i as int).filter_map(pick),
        decreases content.len() - i,
    {
        proof {
            all.lemma_filter_map_take_succ(pick, i as int);
            assert(all[i as int] == content@[i as int]@);
        }
        let ghost before = texts.deep_view();
        match &content[i] {
            ContentItem::InputText { text } => {
                texts.push(text.clone());
                assert(texts.deep_view() =~= before.push(text@));
            },
            ContentItem::OutputText { text } => {
                texts.push(text.clone());
                assert(texts.deep_view() =~= before.push(text@));
            },
            ContentItem::Other { .. } => {},
        }
        i = i + 1;
    }
    assert(all.take(i as int) =~= all);
    text::join_lines(&texts)
}

/// A text, or the empty text where there is none.
pub open spec fn or_empty(t: Option<Seq<char>>) -> Seq<char> {
    match t {
        Some(s) => s,
        None => seq![],
    }
}

/// A text, or the empty text where there is none.
fn text_or_empty(t: &Option<String>) -> (r: String)
    ensures
        r@ == or_empty(t.deep_view()),
{
    match t {
        Some(s) => s.clone(),
        None => {
            let r = String::new();
            assert(r@ =~= seq![]);
            r
        },
    }
}

/// The surface item of a tool's output.
pub open spec fn result_item(
    call_id: Seq<char>,
    name: Option<Seq<char>>,
    tool_type: Seq<char>,
    output: OutputPayloadView,
) -> SurfaceItemView {
    SurfaceItemView::ToolResult {
        call_id,
        tool_name: or_empty(name),
        tool_type,
        blocks: seq![ContentBlockView { kind: "text"@, text: output.body.text() }],
    }
}

/// What an item of a prompt is on the surface, if it is anything there.
pub open spec fn surface_item(item: ResponseItemView) -> Option<SurfaceItemView> {
    match item {
        ResponseItemView::Message { role, content } => {
            let text = message_text(content);
            Some(
                if role == "assistant"@ {
                    SurfaceItemView::Assistant { text }
                } else if role == "system"@ {
                    SurfaceItemView::System { text }
                } else if role == "developer"@ {
                    SurfaceItemView::Developer { text }
                } else {
                    SurfaceItemView::User { text }
                },
            )
        },
        ResponseItemView::FunctionCall { call_id, name, arguments } => Some(
            SurfaceItemView::ToolCall {
                call_id,
                tool_name: name,
                tool_type: "function"@,
                arguments,
            },
        ),
        ResponseItemView::FunctionCallOutput { call_id, name, output } => Some(
            result_item(or_empty(call_id), name, "function"@, output),
        ),
        ResponseItemView::CustomToolCall { call_id, name, input } => Some(
            SurfaceItemView::ToolCall {
                call_id,
                tool_name: name,
                tool_type: "custom"@,
                arguments: input,
            },
        ),
        ResponseItemView::CustomToolCallOutput { call_id, name, output } => Some(
            result_item(call_id, name, "custom"@, output),
        ),
        ResponseItemView::Other { .. } => None,
    }
}

/// The surface that the items of a prompt make.
pub open spec fn surface_of(items: Seq<ResponseItemView>) -> ModelVisibleSurfaceView {
    ModelVisibleSurfaceView {
        items: items.filter_map(|item: ResponseItemView| surface_item(item)),
        generation: 0,
    }
}

fn tool_result(
    call_id: String,
    name: &Option<String>,
    tool_type: &str,
    output: &OutputPayload,
) -> (r: SurfaceItem)
    ensures
        r@ == result_item(call_id@, name.deep_view(), tool_type@, output@),
{
    let block = ContentBlock { kind: "text".to_owned(), text: output.body.to_text() };
    let blocks = vec![block];
    assert(blocks.deep_view() =~= seq![
        ContentBlockView { kind: "text"@, text: output@.body.text() },
    ]);
    SurfaceItem::ToolResult {
        call_id,
        tool_name: text_or_empty(name),
        tool_type: tool_type.to_owned(),
        blocks,
    }
}

/// What an item of a prompt is on the surface, if it is anything there.
fn to_surface_item(item: &ResponseItem) -> (r: Option<SurfaceItem>)
    ensures
        r.deep_view() == surface_item(item@),
{
    match item {
        ResponseItem::Message { role, content } => {
            let text = content_text(content);
            Some(
                if text::same_text(role.as_str(), "assistant") {
                    SurfaceItem::Assistant { text }
                } else if text::same_text(role.as_str(), "system") {
                    SurfaceItem::System { text }
                } else if text::same_text(role.as_str(), "developer") {
                    SurfaceItem::Developer { text }
                } else {
                    SurfaceItem::User { text }
                },
            )
        },
        ResponseItem::FunctionCall { call_id, name, arguments } => Some(
            SurfaceItem::ToolCall {
                call_id: call_id.clone(),
                tool_name: name.clone(),
                tool_type: "function".to_owned(),
                arguments: arguments.clone(),
            },
        ),
        ResponseItem::FunctionCallOutput { call_id, name, output } => Some(
            tool_result(text_or_empty(call_id), name, "function", output),
        ),
        ResponseItem::CustomToolCall { call_id, name, input } => Some(
            SurfaceItem::ToolCall {
                call_id: call_id.clone(),
                tool_name: name.clone(),
                tool_type: "custom".to_owned(),
                arguments: input.clone(),
            },
        ),
        ResponseItem::CustomToolCallOutput { call_id, name, output } => Some(
            tool_result(call_id.clone(), name, "custom", output),
        ),
        ResponseItem::Other { .. } => None,
    }
}

/// The surface that the items of a prompt make for the model.
pub fn response_items_to_surface(items: &Vec<ResponseItem>) -> (r: ModelVisibleSurface)
    ensures
        r@ == surface_of(items.deep_view()),
{
    let ghost all = items.deep_view();
    let ghost pick = |item: ResponseItemView| surface_item(item);
    let mut out: Vec<SurfaceItem> = Vec::new();
    let mut i: usize = 0;
    proof {
        assert(all.take(0).filter_map(pick) =~= seq![]) by {
            reveal(Seq::filter_map);
        }
    }
    while i < items.len()
        invariant
            i <= items.len(),
            all == items.deep_view(),
            pick == (|item: ResponseItemView| surface_item(item)),
            out.deep_view() =~= all.take(i as int).filter_map(pick),
        decreases items.len() - i,
    {
        proof {
            all.lemma_filter_map_take_succ(pick, i as int);
            assert(all[i as int] == items@[i as int]@);
        }
        if let Some(item) = to_surface_item(&items[i]) {
            let ghost before = out.deep_view();
            out.push(item);
            assert(out.deep_view() =~= before.push(item@));
        }
        i = i + 1;
    }
    assert(all.take(i as int) =~= all);
    ModelVisibleSurface { items: out, generation: 0 }
}

/// The estimate for each item of the surface, from the counts for the items of
/// the prompt. A count below zero is taken for zero.
pub open spec fn estimates_of(items: Seq<ResponseItemView>, counts: Seq<i64>) -> Seq<u64>
    decreases items.len(),
{
    if items.len() == 0 {
        seq![]
    } else {
        let front = estimates_of(items.drop_last(), counts);
        let count = counts[items.len() - 1];
        if surface_item(items.last()) is Some {
            front.push(
                if count > 0 {
                    count as u64
                } else {
                    0
                },
            )
        } else {
            front
        }
    }
}

/// The estimate for each item of the surface, from the counts of tokens that the
/// host has for the items of the prompt. Only the host can tell them: it counts
/// the serialized item, in which pictures weigh less than their bytes.
pub fn surface_token_estimates(items: &Vec<ResponseItem>, counts: &Vec<i64>) -> (r: Vec<u64>)
    requires
        counts.len() >= items.len(),
    ensures
        r@ == estimates_of(items.deep_view(), counts@),
{
    let ghost all = items.deep_view();
    let mut out: Vec<u64> = Vec::new();
    let mut i: usize = 0;
    while i < items.len()
        invariant
            i <= items.len(),
            counts.len() >= items.len(),
            all == items.deep_view(),
            out@ =~= estimates_of(all.take(i as int), counts@),
        decreases items.len() - i,
    {
        proof {
            assert(all.take(i + 1).drop_last() =~= all.take(i as int));
            assert(all.take(i + 1).last() == items@[i as int]@);
        }
        let count: i64 = counts[i];
        if to_surface_item(&items[i]).is_some() {
            out.push(
                if count > 0 {
                    count as u64
                } else {
                    0
                },
            );
        }
        i = i + 1;
    }
    assert(all.take(i as int) =~= all);
    out
}

/// Whether what the item at position `i` of a prompt makes stands at one place in a
/// surface, and the count for that item at the same place in the estimates. A count
/// below zero is taken for zero.
pub open spec fn in_step(
    items: Seq<ResponseItemView>,
    counts: Seq<i64>,
    surface: ModelVisibleSurfaceView,
    estimates: Seq<u64>,
    i: int,
) -> bool {
    surface_item(items[i]) matches Some(made) ==> ({
        let place = surface_of(items.take(i)).items.len() as int;
        &&& place < surface.items.len()
        &&& surface.items[place] == made
        &&& estimates[place] == (if counts[i] > 0 {
            counts[i] as u64
        } else {
            0
        })
    })
}

proof fn lemma_estimates_length(items: Seq<ResponseItemView>, counts: Seq<i64>)
    ensures
        estimates_of(items, counts).len() == surface_of(items).items.len(),
    decreases items.len(),
{
    let pick = |item: ResponseItemView| surface_item(item);
    if items.len() == 0 {
        assert(items.filter_map(pick) =~= seq![]) by {
            reveal(Seq::filter_map);
        }
    } else {
        lemma_estimates_length(items.drop_last(), counts);
        items.lemma_filter_map_take_succ(pick, items.len() - 1);
        assert(items.take(items.len() - 1) =~= items.drop_last());
        assert(items.take(items.len() as int) =~= items);
    }
}

/// Surface and estimates keep in step: there are as many estimates as items of
/// the surface, and what the item at position `i` of the prompt makes has the same
/// place in both.
pub proof fn law_estimates_match_the_surface(
    items: Seq<ResponseItemView>,
    counts: Seq<i64>,
    i: int,
)
    requires
        0 <= i < items.len(),
    ensures
        estimates_of(items, counts).len() == surface_of(items).items.len(),
        in_step(items, counts, surface_of(items), estimates_of(items, counts), i),
    decreases items.len(),
{
    let pick = |item: ResponseItemView| surface_item(item);
    let front = items.drop_last();
    let n = items.len() - 1;
    lemma_estimates_length(items, counts);
    lemma_estimates_length(front, counts);
    items.lemma_filter_map_take_succ(pick, n as int);
    assert(items.take(n as int) =~= front);
    assert(items.take(items.len() as int) =~= items);
    if i < n {
        law_estimates_match_the_surface(front, counts, i);
        assert(front.take(i) =~= items.take(i));
        assert(front[i] == items[i]);
    }
}

/// A surface with the host's estimate of the tokens for each of its items.
#[derive(Debug, PartialEq, Eq)]
pub struct EstimatedSurface {
    pub surface: ModelVisibleSurface,
    /// The estimate at a position is for the item at that position of the surface.
    pub item_token_estimates: Vec<u64>,
}

/// The surface that the items of a prompt make for the model, together with the
/// counts of tokens that the host has for them.
pub fn response_items_to_estimated_surface(items: &Vec<ResponseItem>, counts: &Vec<i64>) -> (r:
    EstimatedSurface)
    requires
        counts.len() >= items.len(),
    ensures
        r.surface@ == surface_of(items.deep_view()),
        r.item_token_estimates@ == estimates_of(items.deep_view(), counts@),
        r.item_token_estimates@.len() == r.surface@.items.len(),
        forall|i: int|
            0 <= i < items.len() ==> #[trigger] in_step(
                items.deep_view(),
                counts@,
                r.surface@,
                r.item_token_estimates@,
                i,
            ),
{
    let r = EstimatedSurface {
        surface: response_items_to_surface(items),
        item_token_estimates: surface_token_estimates(items, counts),
    };
    proof {
        let all = items.deep_view();
        lemma_estimates_length(all, counts@);
        assert forall|i: int| 0 <= i < items.len() implies #[trigger] in_step(
            all,
            counts@,
            r.surface@,
            r.item_token_estimates@,
            i,
        ) by {
            law_estimates_match_the_surface(all, counts@, i);
        }
    }
    r
}

/// The text of a block.
pub open spec fn block_text(block: ContentBlockView) -> Option<Seq<char>> {
    block.text
}

/// The texts of a tool result's blocks, each on lines of its own.
pub open spec fn blocks_text(blocks: Seq<ContentBlockView>) -> Seq<char> {
    text::lines(blocks.filter_map(|block: ContentBlockView| block_text(block)))
}

/// The texts of a tool result's blocks, each on lines of its own.
fn text_of_blocks(blocks: &Vec<ContentBlock>) -> (r: String)
    ensures
        r@ == blocks_text(blocks.deep_view()),
{
    let ghost all = blocks.deep_view();
    let ghost pick = |block: ContentBlockView| block_text(block);
    let mut texts: Vec<String> = Vec::new();
    let mut i: usize = 0;
    proof {
        assert(all.take(0).filter_map(pick) =~= seq![]) by {
            reveal(Seq::filter_map);
        }
    }
    while i < blocks.len()
        invariant
            i <= blocks.len(),
            all == blocks.deep_view(),
            pick == (|block: ContentBlockView| block_text(block)),
            texts.deep_view() =~= all.take(i as int).filter_map(pick),
        decreases blocks.len() - i,
    {
        proof {
            all.lemma_filter_map_take_succ(pick, i as int);
            assert(all[i as int] == blocks@[i as int]@);
        }
        if let Some(t) = &blocks[i].text {
            let ghost before = texts.deep_view();
            texts.push(t.clone());
            assert(texts.deep_view() =~= before.push(t@));
        }
        i = i + 1;
    }
    assert(all.take(i as int) =~= all);
    text::join_lines(&texts)
}

/// Whether a position of a surface holds the result of a call.
pub open spec fn answers(items: Seq<SurfaceItemView>, call_id: Seq<char>) -> spec_fn(int) -> bool {
    |i: int| items[i] matches SurfaceItemView::ToolResult { call_id: id, .. } && id == call_id
}

/// The text of the last result of a call on a surface.
pub open spec fn last_result_text(items: Seq<SurfaceItemView>, call_id: Seq<char>) -> Option<
    Seq<char>,
> {
    let last = search::last_below(items.len(), answers(items, call_id));
    if last >= 0 {
        match items[last] {
            SurfaceItemView::ToolResult { blocks, .. } => Some(blocks_text(blocks)),
            _ => None,
        }
    } else {
        None
    }
}

/// The text of the last result of a call on a surface.
fn find_result_text(items: &Vec<SurfaceItem>, call_id: &str) -> (r: Option<String>)
    ensures
        r.deep_view() == last_result_text(items.deep_view(), call_id@),
{
    let ghost all = items.deep_view();
    let ghost n = all.len();
    let ghost found = answers(all, call_id@);
    let mut left: usize = items.len();
    while left > 0
        invariant
            left <= items.len(),
            all == items.deep_view(),
            n == all.len(),
            found == answers(all, call_id@),
            forall|i: int| left <= i < n ==> !#[trigger] found(i),
        decreases left,
    {
        let i: usize = left - 1;
        assert(all[i as int] == items@[i as int]@);
        if let SurfaceItem::ToolResult { call_id: id, blocks, .. } = &items[i] {
            if text::same_text(id.as_str(), call_id) {
                proof {
                    assert(found(i as int));
                    search::lemma_last_below_is(n, found, i as int);
                }
                return Some(text_of_blocks(blocks));
            }
        }
        assert(!found(i as int));
        left = i;
    }
    proof {
        search::lemma_last_below_is(n, found, -1);
    }
    None
}

impl ResponseItemView {
    /// The item with another text in place of its output. An item that is no
    /// output stays as it is.
    pub open spec fn with_text(self, text: Seq<char>) -> Self {
        match self {
            ResponseItemView::FunctionCallOutput { call_id, name, output } => {
                ResponseItemView::FunctionCallOutput {
                    call_id,
                    name,
                    output: OutputPayloadView { body: OutputBodyView::Text(text), ..output },
                }
            },
            ResponseItemView::CustomToolCallOutput { call_id, name, output } => {
                ResponseItemView::CustomToolCallOutput {
                    call_id,
                    name,
                    output: OutputPayloadView { body: OutputBodyView::Text(text), ..output },
                }
            },
            other => other,
        }
    }

    /// The call that the item answers, if it is an output that says so.
    pub open spec fn answered_call(self) -> Option<Seq<char>> {
        match self {
            ResponseItemView::FunctionCallOutput { call_id, .. } => call_id,
            ResponseItemView::CustomToolCallOutput { call_id, .. } => Some(call_id),
            _ => None,
        }
    }

    /// The text of the item's output, if it is an output with a text that says
    /// which call it answers.
    pub open spec fn answer_text(self) -> Option<Seq<char>> {
        match self {
            ResponseItemView::FunctionCallOutput { call_id: Some(id), output, .. } => {
                output.body.text()
            },
            ResponseItemView::CustomToolCallOutput { output, .. } => output.body.text(),
            _ => None,
        }
    }

    /// The item with its output as a surface has it.
    pub open spec fn as_on_surface(self, surface: Seq<SurfaceItemView>) -> Self {
        match self.answered_call() {
            Some(id) => match last_result_text(surface, id) {
                Some(text) => self.with_text(text),
                None => self,
            },
            None => self,
        }
    }
}

/// Puts another text in place of an item's output. An item that is no output
/// stays as it is.
pub fn replace_output_text(item: &mut ResponseItem, text: String)
    ensures
        final(item)@ == old(item)@.with_text(text@),
{
    let next = match &*item {
        ResponseItem::FunctionCallOutput { call_id, name, output } => {
            ResponseItem::FunctionCallOutput {
                call_id: call_id.clone(),
                name: name.clone(),
                output: OutputPayload { body: OutputBody::Text(text), success: output.success },
            }
        },
        ResponseItem::CustomToolCallOutput { call_id, name, output } => {
            ResponseItem::CustomToolCallOutput {
                call_id: call_id.clone(),
                name: name.clone(),
                output: OutputPayload { body: OutputBody::Text(text), success: output.success },
            }
        },
        other => other.clone(),
    };
    *item = next;
}

/// The call that an output answers, and its text.
pub fn output_identity_and_text(item: &ResponseItem) -> (r: Option<(String, String)>)
    ensures
        match r {
            Some((call_id, text)) => item@.answered_call() == Some(call_id@)
                && item@.answer_text() == Some(text@),
            None => item@.answer_text() is None,
        },
{
    match item {
        ResponseItem::FunctionCallOutput { call_id: Some(id), output, .. } => {
            match output.body.to_text() {
                Some(text) => Some((id.clone(), text)),
                None => None,
            }
        },
        ResponseItem::CustomToolCallOutput { call_id, output, .. } => {
            match output.body.to_text() {
                Some(text) => Some((call_id.clone(), text)),
                None => None,
            }
        },
        _ => None,
    }
}

/// Gives the outputs of a prompt the texts that they have on a surface.
pub fn apply_surface_to_items(items: &mut Vec<ResponseItem>, surface: &ModelVisibleSurface)
    ensures
        final(items).deep_view() == old(items).deep_view().map_values(
            |item: ResponseItemView| item.as_on_surface(surface@.items),
        ),
{
    let ghost all = items.deep_view();
    let ghost applied = all.map_values(
        |item: ResponseItemView| item.as_on_surface(surface@.items),
    );
    let mut i: usize = 0;
    while i < items.len()
        invariant
            i <= items.len(),
            items.len() == all.len(),
            applied == all.map_values(
                |item: ResponseItemView| item.as_on_surface(surface@.items),
            ),
            items.deep_view() =~= applied.take(i as int) + all.skip(i as int),
        decreases items.len() - i,
    {
        let ghost before = items.deep_view();
        assert(before[i as int] == all[i as int]);
        assert(before[i as int] == items@[i as int]@);
        let found = match &items[i] {
            ResponseItem::FunctionCallOutput { call_id: Some(id), .. } => find_result_text(
                &surface.items,
                id.as_str(),
            ),
            ResponseItem::CustomToolCallOutput { call_id, .. } => find_result_text(
                &surface.items,
                call_id.as_str(),
            ),
            _ => None,
        };
        if let Some(text) = found {
            let mut item = items[i].clone();
            replace_output_text(&mut item, text);
            items.set(i, item);
            assert(items.deep_view() =~= before.update(i as int, item@));
        }
        i = i + 1;
        assert(items.deep_view() =~= applied.take(i as int) + all.skip(i as int));
    }
    assert(items.deep_view() =~= applied);
}

/// What a message shows depends on who speaks: the assistant, the system and the
/// developer are told apart, and everyone else counts as the user.
pub proof fn law_messages_are_shown_by_role(
    items: Seq<ResponseItemView>,
    role: Seq<char>,
    content: Seq<ContentItemView>,
)
    ensures
        ({
            let shown = surface_of(
                items.push(ResponseItemView::Message { role, content }),
            ).items;
            let text = message_text(content);
            &&& shown.len() == surface_of(items).items.len() + 1
            &&& shown.drop_last() == surface_of(items).items
            &&& role == "assistant"@ ==> shown.last() == (SurfaceItemView::Assistant { text })
            &&& role == "system"@ ==> shown.last() == (SurfaceItemView::System { text })
            &&& role == "developer"@ ==> shown.last() == (SurfaceItemView::Developer { text })
            &&& role != "assistant"@ && role != "system"@ && role != "developer"@ ==> shown.last()
                == (SurfaceItemView::User { text })
        }),
{
    lemma_surface_push(items, ResponseItemView::Message { role, content });
    reveal_strlit("assistant");
    reveal_strlit("system");
    reveal_strlit("developer");
    assert("assistant"@.len() == 9 && "system"@.len() == 6 && "developer"@.len() == 9);
    assert("assistant"@[0] == 'a' && "developer"@[0] == 'd');
}

proof fn lemma_surface_push(items: Seq<ResponseItemView>, item: ResponseItemView)
    ensures
        surface_of(items.push(item)).items == (match surface_item(item) {
            Some(made) => surface_of(items).items.push(made),
            None => surface_of(items).items,
        }),
        surface_of(items.push(item)).generation == 0,
{
    let pick = |i: ResponseItemView| surface_item(i);
    let longer = items.push(item);
    let n = items.len() as int;
    longer.lemma_filter_map_take_succ(pick, n);
    assert(longer.take(n) =~= items);
    assert(longer.take(n + 1) =~= longer);
}

/// The texts of a message are shown one below the other, those that come in and those
/// that go out alike; what is no text is passed over.
pub proof fn law_message_texts_are_shown(
    content: Seq<ContentItemView>,
    t: Seq<char>,
    other: ContentItemView,
)
    requires
        other is Other,
    ensures
        message_text(seq![]) == Seq::<char>::empty(),
        message_text(seq![ContentItemView::InputText { text: t }]) == t,
        message_text(seq![ContentItemView::OutputText { text: t }]) == t,
        message_text(content.push(other)) == message_text(content),
        message_text(content).len() > 0 ==> message_text(
            content.push(ContentItemView::InputText { text: t }),
        ) == message_text(content) + seq!['\n'] + t && message_text(
            content.push(ContentItemView::OutputText { text: t }),
        ) == message_text(content) + seq!['\n'] + t,
{
    let pick = |part: ContentItemView| part_text(part);
    let none: Seq<ContentItemView> = seq![];
    assert(none.filter_map(pick) =~= seq![]) by {
        reveal(Seq::filter_map);
    }
    let input = ContentItemView::InputText { text: t };
    let output = ContentItemView::OutputText { text: t };
    lemma_parts_push(none, input);
    lemma_parts_push(none, output);
    lemma_parts_push(content, other);
    lemma_parts_push(content, input);
    lemma_parts_push(content, output);
    assert(none.push(input) =~= seq![input]);
    assert(none.push(output) =~= seq![output]);
    assert(Seq::<Seq<char>>::empty().push(t) =~= seq![t]);
    let parts = content.filter_map(pick);
    text::law_lines_stand_below_one_another(parts, t);
}

proof fn lemma_parts_push(content: Seq<ContentItemView>, part: ContentItemView)
    ensures
        content.push(part).filter_map(|p: ContentItemView| part_text(p)) == (match part_text(
            part,
        ) {
            Some(t) => content.filter_map(|p: ContentItemView| part_text(p)).push(t),
            None => content.filter_map(|p: ContentItemView| part_text(p)),
        }),
{
    let pick = |p: ContentItemView| part_text(p);
    let longer = content.push(part);
    let n = content.len() as int;
    longer.lemma_filter_map_take_succ(pick, n);
    assert(longer.take(n) =~= content);
    assert(longer.take(n + 1) =~= longer);
}

/// Calls and their outputs are shown with their identifiers, names and texts, function
/// calls and custom calls each as what they are; anything else is not shown.
pub proof fn law_calls_and_outputs_are_shown(
    items: Seq<ResponseItemView>,
    call_id: Seq<char>,
    name: Seq<char>,
    input: Seq<char>,
    output: OutputPayloadView,
    other: ResponseItemView,
)
    requires
        other is Other,
    ensures
        ({
            let before = surface_of(items).items;
            let block = ContentBlockView { kind: "text"@, text: output.body.text() };
            &&& surface_of(
                items.push(
                    ResponseItemView::FunctionCall { call_id, name, arguments: input },
                ),
            ).items == before.push(
                SurfaceItemView::ToolCall {
                    call_id,
                    tool_name: name,
                    tool_type: "function"@,
                    arguments: input,
                },
            )
            &&& surface_of(
                items.push(ResponseItemView::CustomToolCall { call_id, name, input }),
            ).items == before.push(
                SurfaceItemView::ToolCall {
                    call_id,
                    tool_name: name,
                    tool_type: "custom"@,
                    arguments: input,
                },
            )
            &&& surface_of(
                items.push(
                    ResponseItemView::FunctionCallOutput {
                        call_id: Some(call_id),
                        name: Some(name),
                        output,
                    },
                ),
            ).items == before.push(
                SurfaceItemView::ToolResult {
                    call_id,
                    tool_name: name,
                    tool_type: "function"@,
                    blocks: seq![block],
                },
            )
            &&& surface_of(
                items.push(
                    ResponseItemView::CustomToolCallOutput { call_id, name: Some(name), output },
                ),
            ).items == before.push(
                SurfaceItemView::ToolResult {
                    call_id,
                    tool_name: name,
                    tool_type: "custom"@,
                    blocks: seq![block],
                },
            )
            &&& surface_of(items.push(other)).items == before
            &&& surface_of(items).generation == 0
            &&& surface_of(seq![]).items.len() == 0
        }),
{
    lemma_surface_push(
        items,
        ResponseItemView::FunctionCall { call_id, name, arguments: input },
    );
    lemma_surface_push(items, ResponseItemView::CustomToolCall { call_id, name, input });
    lemma_surface_push(
        items,
        ResponseItemView::FunctionCallOutput {
            call_id: Some(call_id),
            name: Some(name),
            output,
        },
    );
    lemma_surface_push(
        items,
        ResponseItemView::CustomToolCallOutput { call_id, name: Some(name), output },
    );
    lemma_surface_push(items, other);
    let none: Seq<ResponseItemView> = seq![];
    assert(none.filter_map(|i: ResponseItemView| surface_item(i)) =~= seq![]) by {
        reveal(Seq::filter_map);
    }
}

/// An output answers the call that it names, with its text: plain text, or what the
/// text parts of richer content come to. Another text takes its place, and leaves the
/// call, the name and the success alone.
pub proof fn law_outputs_answer_their_calls(
    call_id: Seq<char>,
    name: Option<Seq<char>>,
    success: Option<bool>,
    t: Seq<char>,
    content: Option<Seq<char>>,
    replaced: Seq<char>,
)
    ensures
        ({
            let plain = OutputPayloadView { body: OutputBodyView::Text(t), success };
            let rich = OutputPayloadView {
                body: OutputBodyView::Content { text: content },
                success,
            };
            let new = OutputPayloadView { body: OutputBodyView::Text(replaced), success };
            let function = ResponseItemView::FunctionCallOutput {
                call_id: Some(call_id),
                name,
                output: plain,
            };
            let custom = ResponseItemView::CustomToolCallOutput { call_id, name, output: plain };
            let rich_function = ResponseItemView::FunctionCallOutput {
                call_id: Some(call_id),
                name,
                output: rich,
            };
            let rich_custom = ResponseItemView::CustomToolCallOutput {
                call_id,
                name,
                output: rich,
            };
            let unnamed = ResponseItemView::FunctionCallOutput {
                call_id: None,
                name,
                output: plain,
            };
            &&& function.answered_call() == Some(call_id) && custom.answered_call() == Some(
                call_id,
            )
            &&& rich_function.answered_call() == Some(call_id) && rich_custom.answered_call()
                == Some(call_id)
            &&& function.answer_text() == Some(t) && custom.answer_text() == Some(t)
            &&& rich_function.answer_text() == content && rich_custom.answer_text() == content
            &&& unnamed.answered_call() is None && unnamed.answer_text() is None
            &&& function.with_text(replaced) == (ResponseItemView::FunctionCallOutput {
                call_id: Some(call_id),
                name,
                output: new,
            })
            &&& custom.with_text(replaced) == (ResponseItemView::CustomToolCallOutput {
                call_id,
                name,
                output: new,
            })
            &&& rich_function.with_text(replaced).answer_text() == Some(replaced)
            &&& rich_custom.with_text(replaced).answer_text() == Some(replaced)
        }),
{
}

/// What is no output answers no call, and no other text takes its place.
pub proof fn law_only_outputs_are_answers(item: ResponseItemView, t: Seq<char>)
    requires
        !(item is FunctionCallOutput),
        !(item is CustomToolCallOutput),
    ensures
        item.answered_call() is None,
        item.answer_text() is None,
        item.with_text(t) == item,
{
}

proof fn lemma_surface_origin(items: Seq<ResponseItemView>, k: int) -> (j: int)
    requires
        0 <= k < surface_of(items).items.len(),
    ensures
        0 <= j < items.len(),
        surface_item(items[j]) == Some(surface_of(items).items[k]),
        surface_of(items.take(j)).items.len() == k,
    decreases items.len(),
{
    let none: Seq<ResponseItemView> = seq![];
    assert(none.filter_map(|i: ResponseItemView| surface_item(i)) =~= seq![]) by {
        reveal(Seq::filter_map);
    }
    if items.len() == 0 {
        assert(items =~= none);
        0
    } else {
        let front = items.drop_last();
        assert(items =~= front.push(items.last()));
        lemma_surface_push(front, items.last());
        if k < surface_of(front).items.len() {
            let j = lemma_surface_origin(front, k);
            assert(front.take(j) =~= items.take(j));
            j
        } else {
            let j = items.len() - 1;
            assert(items.take(j) =~= front);
            j
        }
    }
}

/// The result of a call on the surface is the one that its only output makes, at the
/// place of that output.
pub proof fn lemma_only_result(items: Seq<ResponseItemView>, i: int)
    requires
        0 <= i < items.len(),
        items[i].answered_call() matches Some(id) && id.len() > 0,
        forall|j: int|
            0 <= j < items.len() && j != i ==> (#[trigger] items[j]).answered_call()
                != items[i].answered_call(),
    ensures
        ({
            let shown = surface_of(items).items;
            let place = surface_of(items.take(i)).items.len() as int;
            &&& place < shown.len()
            &&& Some(shown[place]) == surface_item(items[i])
            &&& forall|k: int|
                0 <= k < shown.len() && k != place ==> !(#[trigger] shown[k] matches
                    SurfaceItemView::ToolResult { call_id, .. } && call_id
                    == items[i].answered_call()->0)
        }),
{
    let shown = surface_of(items).items;
    let place = surface_of(items.take(i)).items.len() as int;
    let counts = Seq::new(items.len(), |k: int| 0i64);
    law_estimates_match_the_surface(items, counts, i);
    assert forall|k: int| 0 <= k < shown.len() && k != place implies !(#[trigger] shown[k] matches
        SurfaceItemView::ToolResult { call_id, .. } && call_id
        == items[i].answered_call()->0) by {
        let j = lemma_surface_origin(items, k);
        if j != i {
            assert(items[j].answered_call() != items[i].answered_call());
        }
    }
}

/// An output takes the text that the last result of its call has on the surface: the
/// texts of its blocks, one below the other. One whose call has no result there stays as
/// it is, and so does what is no output.
pub proof fn law_the_last_result_is_put_in(
    item: ResponseItemView,
    surface: Seq<SurfaceItemView>,
    k: int,
)
    requires
        0 <= k < surface.len(),
        forall|j: int|
            k < j < surface.len() ==> !(#[trigger] surface[j] matches SurfaceItemView::ToolResult {
                call_id,
                ..
            } && Some(call_id) == item.answered_call()),
    ensures
        surface[k] matches SurfaceItemView::ToolResult { call_id, blocks, .. } ==> (
        item.answered_call() == Some(call_id) ==> item.as_on_surface(surface) == item.with_text(
            blocks_text(blocks),
        )),
        item.answered_call() is None ==> item.as_on_surface(surface) == item,
        (forall|j: int|
            0 <= j < surface.len() ==> !(#[trigger] surface[j] matches
                SurfaceItemView::ToolResult { call_id, .. } && Some(call_id)
                == item.answered_call())) ==> item.as_on_surface(surface) == item,
{
    if let Some(id) = item.answered_call() {
        let found = answers(surface, id);
        assert forall|j: int| k < j < surface.len() implies !#[trigger] found(j) by {
            assert(!(surface[j] matches SurfaceItemView::ToolResult { call_id, .. } && Some(
                call_id,
            ) == item.answered_call()));
        }
        if found(k) {
            search::lemma_last_below_is(surface.len(), found, k);
        }
        if forall|j: int|
            0 <= j < surface.len() ==> !(#[trigger] surface[j] matches
                SurfaceItemView::ToolResult { call_id, .. } && Some(call_id)
                == item.answered_call()) {
            assert forall|j: int| -1 < j < surface.len() implies !#[trigger] found(j) by {
                assert(!(surface[j] matches SurfaceItemView::ToolResult { call_id, .. } && Some(
                    call_id,
                ) == item.answered_call()));
            }
            search::lemma_last_below_is(surface.len(), found, -1);
        }
    }
}

/// The texts of blocks stand one below the other; a block without text is passed over.
pub proof fn law_block_texts_are_put_together(
    blocks: Seq<ContentBlockView>,
    block: ContentBlockView,
)
    ensures
        blocks_text(seq![]) == Seq::<char>::empty(),
        block.text is None ==> blocks_text(blocks.push(block)) == blocks_text(blocks),
        block.text matches Some(t) ==> (blocks_text(blocks).len() > 0 ==> blocks_text(
            blocks.push(block),
        ) == blocks_text(blocks) + seq!['\n'] + t),
        block.text matches Some(t) ==> blocks_text(seq![block]) == t,
{
    let pick = |b: ContentBlockView| block_text(b);
    let none: Seq<ContentBlockView> = seq![];
    assert(none.filter_map(pick) =~= seq![]) by {
        reveal(Seq::filter_map);
    }
    let longer = blocks.push(block);
    let n = blocks.len() as int;
    longer.lemma_filter_map_take_succ(pick, n);
    assert(longer.take(n) =~= blocks);
    assert(longer.take(n + 1) =~= longer);
    let one = seq![block];
    one.lemma_filter_map_take_succ(pick, 0);
    assert(one.take(0) =~= none);
    assert(one.take(1) =~= one);
    if let Some(t) = block.text {
        let parts = blocks.filter_map(pick);
        text::law_lines_stand_below_one_another(parts, t);
        assert(blocks_text(blocks) == text::lines(parts));
        assert(longer[n] == block);
        assert(longer.filter_map(pick) =~= parts.push(t));
        if parts.len() == 0 {
            assert(text::lines(parts).len() == 0);
        }
        assert(Seq::<Seq<char>>::empty().push(t) =~= seq![t]);
    }
}

/// The host's count for an item is the estimate for what it shows, behind the estimates
/// for the items before; a count below zero is taken for zero, and an item that is not
/// shown has no estimate.
pub proof fn law_estimates_are_the_hosts_counts(
    items: Seq<ResponseItemView>,
    item: ResponseItemView,
    counts: Seq<i64>,
)
    requires
        counts.len() > items.len(),
    ensures
        ({
            let before = estimates_of(items, counts);
            let after = estimates_of(items.push(item), counts);
            let count = counts[items.len() as int];
            &&& item is Other ==> after == before
            &&& !(item is Other) ==> after.len() == before.len() + 1 && after.drop_last()
                == before && after.last() == (if count < 0 {
                0int
            } else {
                count as int
            })
        }),
        estimates_of(seq![], counts).len() == 0,
{
    assert(items.push(item).drop_last() =~= items);
    let before = estimates_of(items, counts);
    let after = estimates_of(items.push(item), counts);
    if !(item is Other) {
        assert(after.drop_last() =~= before);
    }
}

} // verus!
