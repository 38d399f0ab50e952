//! Calls that a provider sends twice under one identifier.

use crate::response_items::{ResponseItem, ResponseItemView};
use crate::search;
use crate::text;
use vstd::prelude::*;

verus! {

/// What a call asks for.
#[derive(Debug, PartialEq, Eq)]
pub struct SeenCall {
    pub call_id: String,
    pub name: String,
    pub payload: String,
}

/// The model of [`SeenCall`].
#[verifier::ext_equal]
pub struct SeenCallView {
    pub call_id: Seq<char>,
    pub name: Seq<char>,
    pub payload: Seq<char>,
}

impl View for SeenCall {
    type V = SeenCallView;

    open spec fn view(&self) -> SeenCallView {
        SeenCallView {
            call_id: self.call_id@,
            name: self.name@,
            payload: self.payload@,
        }
    }
}

impl DeepView for SeenCall {
    type V = SeenCallView;

    open spec fn deep_view(&self) -> SeenCallView {
        self@
    }
}

impl Clone for SeenCall {
    fn clone(&self) -> (r: Self)
        ensures
            r@ == self@,
    {
        SeenCall {
            call_id: self.call_id.clone(),
            name: self.name.clone(),
            payload: self.payload.clone(),
        }
    }
}

/// The first call under each identifier.
#[derive(Debug)]
pub struct SeenCalls {
    calls: Vec<SeenCall>,
}

/// The model of [`SeenCalls`].
#[verifier::ext_equal]
pub struct SeenCallsView {
    pub calls: Seq<SeenCallView>,
}

impl View for SeenCalls {
    type V = SeenCallsView;

    closed spec fn view(&self) -> SeenCallsView {
        SeenCallsView {
            calls: self.calls.deep_view(),
        }
    }
}

impl DeepView for SeenCalls {
    type V = SeenCallsView;

    open spec fn deep_view(&self) -> SeenCallsView {
        self@
    }
}

impl Clone for SeenCalls {
    fn clone(&self) -> (r: Self)
        ensures
            r@ == self@,
    {
        SeenCalls {
            calls: self.calls.clone(),
        }
    }
}

/// The call that an item makes, if it makes one.
pub open spec fn call_of(item: ResponseItemView) -> Option<SeenCallView> {
    match item {
        ResponseItemView::FunctionCall { call_id, name, arguments } => Some(
            SeenCallView { call_id, name, payload: arguments },
        ),
        ResponseItemView::CustomToolCall { call_id, name, input } => Some(
            SeenCallView { call_id, name, payload: input },
        ),
        _ => None,
    }
}

/// The call that an item makes, if it makes one.
pub fn call_in(item: &ResponseItem) -> (r: Option<SeenCall>)
    ensures
        r.deep_view() == call_of(item@),
{
    match item {
        ResponseItem::FunctionCall { call_id, name, arguments } => Some(
            SeenCall {
                call_id: call_id.clone(),
                name: name.clone(),
                payload: arguments.clone(),
            },
        ),
        ResponseItem::CustomToolCall { call_id, name, input } => Some(
            SeenCall { call_id: call_id.clone(), name: name.clone(), payload: input.clone() },
        ),
        _ => None,
    }
}

impl SeenCallsView {
    /// No calls.
    pub open spec fn empty() -> Self {
        SeenCallsView { calls: seq![] }
    }

    /// Whether the call at a position bears an identifier.
    pub open spec fn bears(self, call_id: Seq<char>) -> spec_fn(int) -> bool {
        |i: int| self.calls[i].call_id == call_id
    }

    /// The call under an identifier.
    pub open spec fn lookup(self, call_id: Seq<char>) -> Option<SeenCallView> {
        let at = search::first_below(self.calls.len(), self.bears(call_id));
        if at < self.calls.len() {
            Some(self.calls[at])
        } else {
            None
        }
    }

    /// The calls once another was seen. Only the first under an identifier
    /// counts.
    pub open spec fn with_call(self, call: SeenCallView) -> Self {
        if self.lookup(call.call_id) is Some {
            self
        } else {
            SeenCallsView { calls: self.calls.push(call) }
        }
    }
}

/// What is thought of a call in the light of those that were seen.
#[derive(Debug, Clone, Copy, PartialEq, Eq, Structural)]
pub enum ReplayVerdict {
    /// The identifier is new.
    First,
    /// The same call was seen under the identifier.
    Replay,
    /// Another call was seen under the identifier.
    Collision,
}

/// What is thought of a call in the light of those that were seen.
pub open spec fn verdict(seen: SeenCallsView, call: SeenCallView) -> ReplayVerdict {
    match seen.lookup(call.call_id) {
        None => ReplayVerdict::First,
        Some(first) => if first == call {
            ReplayVerdict::Replay
        } else {
            ReplayVerdict::Collision
        },
    }
}

impl SeenCalls {
    /// No calls.
    pub fn new() -> (r: Self)
        ensures
            r@ == SeenCallsView::empty(),
    {
        let r = SeenCalls { calls: Vec::new() };
        assert(r@.calls =~= seq![]);
        r
    }

    /// Judges a call, and remembers it if it is the first under its identifier.
    pub fn judge(&mut self, call: SeenCall) -> (r: ReplayVerdict)
        ensures
            r == verdict(old(self)@, call@),
            final(self)@ == old(self)@.with_call(call@),
    {
        let ghost start = self@;
        let ghost n = start.calls.len();
        let ghost bears = start.bears(call@.call_id);
        let mut i: usize = 0;
        while i < self.calls.len()
            invariant
                i <= self.calls.len(),
                self@ == start,
                n == self.calls.len(),
                bears == start.bears(call@.call_id),
                forall|k: int| 0 <= k < i ==> !#[trigger] bears(k),
            decreases self.calls.len() - i,
        {
            let first = &self.calls[i];
            assert(start.calls[i as int] == first@);
            if text::same_text(first.call_id.as_str(), call.call_id.as_str()) {
                proof {
                    assert(bears(i as int));
                    search::lemma_first_below_is(n, bears, i as int);
                }
                return if text::same_text(first.name.as_str(), call.name.as_str())
                    && text::same_text(first.payload.as_str(), call.payload.as_str()) {
                    ReplayVerdict::Replay
                } else {
                    ReplayVerdict::Collision
                };
            }
            assert(!bears(i as int));
            i = i + 1;
        }
        proof {
            search::lemma_first_below_is(n, bears, n as int);
        }
        self.calls.push(call);
        assert(self@.calls =~= start.calls.push(call@));
        ReplayVerdict::First
    }
}

/// Whether the item at a position makes a call under an identifier.
pub open spec fn calls_under(items: Seq<ResponseItemView>, call_id: Seq<char>) -> spec_fn(
    int,
) -> bool {
    |i: int| call_of(items[i]) matches Some(call) && call.call_id == call_id
}

/// The first call under an identifier.
pub open spec fn first_call(items: Seq<ResponseItemView>, call_id: Seq<char>) -> Option<
    SeenCallView,
> {
    let at = search::first_below(items.len(), calls_under(items, call_id));
    if at < items.len() {
        call_of(items[at])
    } else {
        None
    }
}

/// Whether the item at a position makes a call that was made before, word for
/// word, as the first call under its identifier.
pub open spec fn is_replay(items: Seq<ResponseItemView>, i: int) -> bool {
    call_of(items[i]) matches Some(call) && first_call(items.take(i), call.call_id) == Some(call)
}

/// The first `n` items without those that only replay a call.
pub open spec fn without_replays(items: Seq<ResponseItemView>, n: int) -> Seq<ResponseItemView>
    decreases n,
{
    if n <= 0 {
        seq![]
    } else {
        let front = without_replays(items, n - 1);
        if is_replay(items, n - 1) {
            front
        } else {
            front.push(items[n - 1])
        }
    }
}

proof fn lemma_first_call_step(items: Seq<ResponseItemView>, i: int, call_id: Seq<char>)
    requires
        0 <= i < items.len(),
    ensures
        first_call(items.take(i + 1), call_id) == (if first_call(items.take(i), call_id) is Some {
            first_call(items.take(i), call_id)
        } else {
            match call_of(items[i]) {
                Some(call) => if call.call_id == call_id {
                    Some(call)
                } else {
                    None
                },
                None => None,
            }
        }),
{
    let p = calls_under(items.take(i), call_id);
    let q = calls_under(items.take(i + 1), call_id);
    search::lemma_first_below(i as nat, p);
    let k = search::first_below(i as nat, p);
    assert forall|j: int| 0 <= j < i implies #[trigger] q(j) == p(j) by {
        assert(items.take(i)[j] == items.take(i + 1)[j]);
    }
    assert forall|j: int| 0 <= j < k implies !#[trigger] q(j) by {
        assert(!p(j));
    }
    if k < i {
        assert(p(k));
        assert(q(k));
        search::lemma_first_below_is((i + 1) as nat, q, k);
        assert(items.take(i)[k] == items.take(i + 1)[k]);
    } else {
        assert(items.take(i + 1)[i] == items[i]);
        if q(i) {
            search::lemma_first_below_is((i + 1) as nat, q, i);
        } else {
            assert forall|j: int| 0 <= j < i + 1 implies !#[trigger] q(j) by {
                if j < i {
                    assert(!p(j));
                }
            }
            search::lemma_first_below_is((i + 1) as nat, q, i + 1);
        }
    }
}

proof fn lemma_seen_step(seen: SeenCallsView, call: SeenCallView, call_id: Seq<char>)
    ensures
        seen.with_call(call).lookup(call_id) == (if seen.lookup(call_id) is Some {
            seen.lookup(call_id)
        } else if call.call_id == call_id {
            Some(call)
        } else {
            None
        }),
{
    let n = seen.calls.len();
    let after = seen.with_call(call);
    let p = seen.bears(call_id);
    let q = after.bears(call_id);
    search::lemma_first_below(n, p);
    let k = search::first_below(n, p);
    if seen.lookup(call.call_id) is None {
        assert forall|j: int| 0 <= j < n implies #[trigger] q(j) == p(j) by {}
        assert forall|j: int| 0 <= j < k implies !#[trigger] q(j) by {
            assert(!p(j));
        }
        if k < n {
            search::lemma_first_below_is(n + 1, q, k);
        } else if q(n as int) {
            search::lemma_first_below_is(n + 1, q, n as int);
        } else {
            assert forall|j: int| 0 <= j < n + 1 implies !#[trigger] q(j) by {
                if j < n {
                    assert(!p(j));
                }
            }
            search::lemma_first_below_is(n + 1, q, (n + 1) as int);
        }
    }
}

/// Takes out the items that only replay a call. Where an identifier stands for two
/// different calls both stay, for that is an error that has to be seen.
pub fn remove_replays(items: &mut Vec<ResponseItem>)
    ensures
        final(items).deep_view() == without_replays(
            old(items).deep_view(),
            old(items).len() as int,
        ),
{
    let ghost all = items.deep_view();
    let mut seen = SeenCalls::new();
    let mut kept: Vec<ResponseItem> = Vec::new();
    let mut i: usize = 0;
    proof {
        assert forall|id: Seq<char>|
            #[trigger] seen@.lookup(id) == first_call(all.take(0), id) by {}
        assert(kept.deep_view() =~= seq![]);
    }
    while i < items.len()
        invariant
            i <= items.len(),
            all == items.deep_view(),
            kept.deep_view() =~= without_replays(all, i as int),
            forall|id: Seq<char>|
                #[trigger] seen@.lookup(id) == first_call(all.take(i as int), id),
        decreases items.len() - i,
    {
        let ghost before = kept.deep_view();
        let ghost known = seen@;
        assert(all[i as int] == items@[i as int]@);
        let replay: bool = match call_in(&items[i]) {
            Some(call) => {
                let ghost made = call@;
                assert(known.lookup(made.call_id) == first_call(all.take(i as int), made.call_id));
                let verdict = seen.judge(call);
                proof {
                    assert forall|id: Seq<char>| #[trigger]
                        seen@.lookup(id) == first_call(all.take(i + 1), id) by {
                        lemma_seen_step(known, made, id);
                        lemma_first_call_step(all, i as int, id);
                        assert(known.lookup(id) == first_call(all.take(i as int), id));
                    }
                }
                verdict == ReplayVerdict::Replay
            },
            None => {
                proof {
                    assert forall|id: Seq<char>| #[trigger]
                        seen@.lookup(id) == first_call(all.take(i + 1), id) by {
                        lemma_first_call_step(all, i as int, id);
                        assert(known.lookup(id) == first_call(all.take(i as int), id));
                    }
                }
                false
            },
        };
        if !replay {
            let item = items[i].clone();
            kept.push(item);
            assert(kept.deep_view() =~= before.push(item@));
        }
        i = i + 1;
    }
    *items = kept;
}

proof fn lemma_replays_keep_first_calls(items: Seq<ResponseItemView>, n: int, call_id: Seq<char>)
    requires
        0 <= n <= items.len(),
    ensures
        first_call(without_replays(items, n), call_id) == first_call(items.take(n), call_id),
    decreases n,
{
    if n == 0 {
        assert(without_replays(items, 0) =~= items.take(0));
    } else {
        lemma_replays_keep_first_calls(items, n - 1, call_id);
        lemma_first_call_step(items, n - 1, call_id);
        let front = without_replays(items, n - 1);
        if !is_replay(items, n - 1) {
            let after = front.push(items[n - 1]);
            lemma_first_call_step(after, front.len() as int, call_id);
            assert(after.take(front.len() as int) =~= front);
            assert(after.take((front.len() + 1) as int) =~= after);
        }
    }
}

/// After replays were taken out none is left: no item repeats, word for word, the
/// first call under its identifier.
pub proof fn law_no_replay_is_left(items: Seq<ResponseItemView>, n: int, i: int)
    requires
        0 <= n <= items.len(),
        0 <= i < without_replays(items, n).len(),
    ensures
        !is_replay(without_replays(items, n), i),
    decreases n,
{
    if n > 0 {
        let front = without_replays(items, n - 1);
        let after = without_replays(items, n);
        if i < front.len() {
            law_no_replay_is_left(items, n - 1, i);
            if after.len() > front.len() {
                assert(after.take(i) =~= front.take(i));
                assert(after[i] == front[i]);
            }
        } else {
            assert(after.take(i) =~= front);
            assert(after[i] == items[n - 1]);
            if let Some(call) = call_of(items[n - 1]) {
                lemma_replays_keep_first_calls(items, n - 1, call.call_id);
            }
        }
    }
}

/// Taking replays out never loses the first call under an identifier.
pub proof fn law_first_calls_stay(items: Seq<ResponseItemView>, call_id: Seq<char>)
    ensures
        first_call(without_replays(items, items.len() as int), call_id) == first_call(
            items,
            call_id,
        ),
{
    lemma_replays_keep_first_calls(items, items.len() as int, call_id);
    assert(items.take(items.len() as int) =~= items);
}

/// A call is what an item asks for under its identifier: its name and its arguments or
/// input. Other items are no calls.
pub proof fn law_calls_are_read_off_items(
    call_id: Seq<char>,
    name: Seq<char>,
    payload: Seq<char>,
    other: ResponseItemView,
)
    ensures
        call_of(ResponseItemView::FunctionCall { call_id, name, arguments: payload }) == Some(
            SeenCallView { call_id, name, payload },
        ),
        call_of(ResponseItemView::CustomToolCall { call_id, name, input: payload }) == Some(
            SeenCallView { call_id, name, payload },
        ),
        !(other is FunctionCall) && !(other is CustomToolCall) ==> call_of(other) is None,
{
}

/// A replay goes and everything else stays: a call that is the same, name and payload,
/// as the first one under its identifier is taken out; one that differs in either
/// stays, and so does a first call and what is no call.
pub proof fn law_exactly_replays_go(items: Seq<ResponseItemView>, first: int, i: int)
    requires
        0 <= first < i < items.len(),
        call_of(items[first]) matches Some(a) && forall|k: int|
            0 <= k < first ==> !(call_of(#[trigger] items[k]) matches Some(c) && c.call_id
                == a.call_id),
    ensures
        ({
            let before = without_replays(items, i);
            let after = without_replays(items, i + 1);
            let a = call_of(items[first])->0;
            &&& call_of(items[i]) matches Some(b) ==> (b.call_id == a.call_id && b.name == a.name
                && b.payload == a.payload ==> after == before)
            &&& call_of(items[i]) matches Some(b) ==> (b.call_id == a.call_id && (b.name != a.name
                || b.payload != a.payload) ==> after == before.push(items[i]))
            &&& call_of(items[i]) is None ==> after == before.push(items[i])
        }),
        without_replays(items, 0) == Seq::<ResponseItemView>::empty(),
{
    let a = call_of(items[first])->0;
    let front = items.take(i);
    let p = calls_under(front, a.call_id);
    assert(front[first] == items[first]);
    assert(p(first));
    assert forall|k: int| 0 <= k < first implies !#[trigger] p(k) by {
        assert(front[k] == items[k]);
    }
    search::lemma_first_below_is(front.len(), p, first);
}

/// The first call under an identifier stays.
pub proof fn law_a_new_call_stays(items: Seq<ResponseItemView>, i: int)
    requires
        0 <= i < items.len(),
        call_of(items[i]) matches Some(b) && forall|k: int|
            0 <= k < i ==> !(call_of(#[trigger] items[k]) matches Some(c) && c.call_id
                == b.call_id),
    ensures
        without_replays(items, i + 1) == without_replays(items, i).push(items[i]),
{
    let b = call_of(items[i])->0;
    let front = items.take(i);
    let p = calls_under(front, b.call_id);
    assert forall|k: int| 0 <= k < i implies !#[trigger] p(k) by {
        assert(front[k] == items[k]);
    }
    search::lemma_first_below_is(front.len(), p, i);
}

/// While a response is read, a call is first where none was seen under its identifier,
/// and is then seen; it is a replay where the one that was seen has the same name and
/// payload, and a collision where it has not. Only a first call is added.
pub proof fn law_calls_are_judged_by_the_first(seen: SeenCallsView, call: SeenCallView)
    ensures
        seen.lookup(call.call_id) is None ==> verdict(seen, call) == ReplayVerdict::First
            && seen.with_call(call).calls == seen.calls.push(call),
        seen.lookup(call.call_id) matches Some(a) ==> seen.with_call(call) == seen && a.call_id
            == call.call_id && seen.calls.contains(a) && (a.name == call.name && a.payload
            == call.payload ==> verdict(seen, call) == ReplayVerdict::Replay) && (a.name
            != call.name || a.payload != call.payload ==> verdict(seen, call)
            == ReplayVerdict::Collision),
        seen.lookup(call.call_id) is None ==> forall|k: int|
            0 <= k < seen.calls.len() ==> (#[trigger] seen.calls[k]).call_id != call.call_id,
        SeenCallsView::empty().calls.len() == 0,
{
    let p = seen.bears(call.call_id);
    let n = seen.calls.len();
    search::lemma_first_below(n, p);
    let at = search::first_below(n, p);
    if at < n {
        assert(p(at));
    } else {
        assert forall|k: int| 0 <= k < n implies (#[trigger] seen.calls[k]).call_id
            != call.call_id by {
            assert(!p(k));
        }
    }
}

} // verus!
