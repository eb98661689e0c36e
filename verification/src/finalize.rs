//! Consuming one normalized provider stream through the fail-closed
//! assembler.
//!
//! The stream is consumed through its end even after a terminal event, so
//! that a provider cannot hide duplicate or post-terminal output. An end
//! without one terminal response is an assembly error.

use crate::assembler::{
    outcome_view, spec_push, AssemblerView, AssemblyError, AssemblyErrorView, ResponseAssembler,
};
use crate::provider::{EventView, ModelEvent, ModelResponse, ProviderError, ResponseView};
use vstd::prelude::*;

verus! {

/// Why a stream did not finalize.
#[derive(Debug, PartialEq, Eq)]
pub enum StreamFinalizationError {
    Provider(ProviderError),
    Assembly(AssemblyError),
}

/// A finalization error taken by view.
pub enum FinalizationView {
    Provider(ProviderError),
    Assembly(AssemblyErrorView),
}

impl View for StreamFinalizationError {
    type V = FinalizationView;

    open spec fn view(&self) -> FinalizationView {
        match self {
            StreamFinalizationError::Provider(e) => FinalizationView::Provider(*e),
            StreamFinalizationError::Assembly(e) => FinalizationView::Assembly(e@),
        }
    }
}

/// What the stream's end gives: the terminal response, or why there is none.
pub open spec fn finish_view(a: AssemblerView) -> Result<ResponseView, AssemblyErrorView> {
    match a {
        AssemblerView::Terminal(resp) => Ok(resp),
        AssemblerView::Poisoned => Err(AssemblyErrorView::Poisoned),
        _ => Err(AssemblyErrorView::UnexpectedEnd),
    }
}

/// One stream item applied: a provider error stops the stream, an event goes
/// to the assembler.
pub fn finalize_item(
    assembler: &mut ResponseAssembler,
    item: Result<ModelEvent, ProviderError>,
) -> (r: Result<(), StreamFinalizationError>)
    ensures
        match item {
            Err(e) => r == Err::<(), StreamFinalizationError>(StreamFinalizationError::Provider(e))
                && final(assembler)@ == old(assembler)@,
            Ok(event) => {
                let (next, outcome) = spec_push(old(assembler)@, event@);
                &&& final(assembler)@ == next
                &&& match outcome {
                    Err(e) => r matches Err(StreamFinalizationError::Assembly(x)) && x@ == e,
                    Ok(_) => r is Ok,
                }
            },
        },
{
    match item {
        Err(e) => Err(StreamFinalizationError::Provider(e)),
        Ok(event) => match assembler.push(event) {
            Ok(_) => Ok(()),
            Err(e) => Err(StreamFinalizationError::Assembly(e)),
        },
    }
}

/// The stream's end: the terminal response, or the assembly error.
pub fn finalize_end(assembler: ResponseAssembler) -> (r: Result<ModelResponse, StreamFinalizationError>)
    ensures
        match finish_view(assembler@) {
            Ok(resp) => r matches Ok(x) && x@ == resp,
            Err(e) => r matches Err(StreamFinalizationError::Assembly(x)) && x@ == e,
        },
{
    match assembler.finish() {
        Ok(response) => Ok(response),
        Err(e) => Err(StreamFinalizationError::Assembly(e)),
    }
}

/// The assembler after the stream items from index `i` on, or the first
/// failure among them.
pub open spec fn finalize_fold(
    a: AssemblerView,
    items: Seq<Result<ModelEvent, ProviderError>>,
    i: int,
) -> Result<AssemblerView, FinalizationView>
    decreases items.len() - i,
{
    if i < 0 || i >= items.len() {
        Ok(a)
    } else {
        match items[i] {
            Err(e) => Err(FinalizationView::Provider(e)),
            Ok(event) => {
                let (next, outcome) = spec_push(a, event@);
                match outcome {
                    Err(e) => Err(FinalizationView::Assembly(e)),
                    Ok(_) => finalize_fold(next, items, i + 1),
                }
            },
        }
    }
}

/// What a whole stream gives.
pub open spec fn finalize_outcome(items: Seq<Result<ModelEvent, ProviderError>>) -> Result<
    ResponseView,
    FinalizationView,
> {
    match finalize_fold(AssemblerView::AwaitingStart, items, 0) {
        Err(e) => Err(e),
        Ok(a) => match finish_view(a) {
            Ok(resp) => Ok(resp),
            Err(e) => Err(FinalizationView::Assembly(e)),
        },
    }
}

/// Finalizes a stream whose items are all at hand.
pub fn finalize_items(items: Vec<Result<ModelEvent, ProviderError>>) -> (r: Result<
    ModelResponse,
    StreamFinalizationError,
>)
    ensures
        match finalize_outcome(items@) {
            Ok(resp) => r matches Ok(x) && x@ == resp,
            Err(e) => r matches Err(x) && x@ == e,
        },
{
    let ghost all = items@;
    let mut assembler = ResponseAssembler::new();
    let n = items.len();
    let mut rest = items;
    let mut i: usize = 0;
    while rest.len() > 0
        invariant
            0 <= i <= all.len(),
            all == items@,
            all.len() == n,
            rest@ == all.subrange(i as int, all.len() as int),
            finalize_fold(AssemblerView::AwaitingStart, all, 0) == finalize_fold(
                assembler@,
                all,
                i as int,
            ),
        decreases rest.len(),
    {
        assert(i < all.len());
        let item = rest.remove(0);
        assert(item == all[i as int]);
        proof {
            assert(rest@ =~= all.subrange(i + 1, all.len() as int));
        }
        match finalize_item(&mut assembler, item) {
            Ok(()) => {},
            Err(e) => {
                return Err(e);
            },
        }
        i = i + 1;
    }
    finalize_end(assembler)
}

/// The assembler after each event of `events` in turn.
pub open spec fn push_all(a: AssemblerView, events: Seq<EventView>) -> AssemblerView
    decreases events.len(),
{
    if events.len() == 0 {
        a
    } else {
        spec_push(push_all(a, events.drop_last()), events.last()).0
    }
}

/// Fail-closed: after any sequence of events, the stream's end gives a
/// response only when the last event was the terminal one, and the response
/// is the one that event returned; an empty stream gives none.
pub proof fn lemma_finish_after_events(events: Seq<EventView>)
    ensures
        finish_view(push_all(AssemblerView::AwaitingStart, events)) matches Ok(resp) ==> events.len()
            > 0 && spec_push(push_all(AssemblerView::AwaitingStart, events.drop_last()), events.last()).1
            == Ok::<Option<ResponseView>, AssemblyErrorView>(Some(resp)),
{
}

/// What the `k`-th of the events returned when pushed after the ones
/// before it.
pub open spec fn pushed(events: Seq<EventView>, k: int) -> Result<Option<ResponseView>, AssemblyErrorView> {
    spec_push(push_all(AssemblerView::AwaitingStart, events.take(k)), events[k]).1
}

/// Some push among the first `n` returned an error.
pub open spec fn some_push_failed(events: Seq<EventView>, n: int) -> bool {
    exists|k: int| 0 <= k < n && (#[trigger] pushed(events, k)) is Err
}

/// Some push among the first `n` returned the response `resp`.
pub open spec fn some_push_returned(events: Seq<EventView>, n: int, resp: ResponseView) -> bool {
    exists|k: int| 0 <= k < n && #[trigger] pushed(events, k) == Ok::<Option<ResponseView>, AssemblyErrorView>(Some(resp))
}

/// The state after pushes: poisoned exactly when a push failed, terminal
/// with a response exactly when no push failed and one push returned that
/// response, and otherwise still open with no push failed or returning.
pub open spec fn pushes_explain(events: Seq<EventView>) -> bool {
    let st = push_all(AssemblerView::AwaitingStart, events);
    let n = events.len() as int;
    &&& (st is Poisoned) == some_push_failed(events, n)
    &&& forall|r: ResponseView|
        (st == AssemblerView::Terminal(r)) == (!some_push_failed(events, n) && #[trigger] some_push_returned(events, n, r))
    &&& (st is AwaitingStart || st is Streaming) ==> !some_push_failed(events, n) && forall|r: ResponseView|
        !#[trigger] some_push_returned(events, n, r)
}

proof fn lemma_pushes_explain(events: Seq<EventView>)
    ensures
        pushes_explain(events),
    decreases events.len(),
{
    let n = events.len() as int;
    if n == 0 {
        assert(!some_push_failed(events, 0));
        assert forall|r: ResponseView| !#[trigger] some_push_returned(events, 0, r) by {}
    } else {
        let prev = events.drop_last();
        lemma_pushes_explain(prev);
        let b = push_all(AssemblerView::AwaitingStart, prev);
        let e = events.last();
        assert(events.take(n - 1) =~= prev);
        assert forall|k: int| 0 <= k < n - 1 implies #[trigger] pushed(events, k) == pushed(prev, k) by {
            assert(events.take(k) =~= prev.take(k));
        }
        let out = pushed(events, n - 1);
        assert(out == spec_push(b, e).1);
        let st = push_all(AssemblerView::AwaitingStart, events);
        assert(st == spec_push(b, e).0);
        if some_push_failed(prev, n - 1) {
            let k = choose|k: int| 0 <= k < n - 1 && (#[trigger] pushed(prev, k)) is Err;
            assert(pushed(events, k) is Err);
        }
        if out is Err {
            assert(pushed(events, n - 1) is Err);
        }
        assert(some_push_failed(events, n) == (some_push_failed(prev, n - 1) || out is Err)) by {
            if some_push_failed(events, n) {
                let k = choose|k: int| 0 <= k < n && (#[trigger] pushed(events, k)) is Err;
                if k < n - 1 {
                    assert(pushed(prev, k) is Err);
                }
            }
        }
        assert forall|r: ResponseView| #[trigger] some_push_returned(events, n, r) == (
        some_push_returned(prev, n - 1, r) || out == Ok::<Option<ResponseView>, AssemblyErrorView>(
            Some(r),
        )) by {
            if some_push_returned(events, n, r) {
                let k = choose|k: int| 0 <= k < n && #[trigger] pushed(events, k) == Ok::<Option<ResponseView>, AssemblyErrorView>(Some(r));
                if k < n - 1 {
                    assert(pushed(prev, k) == pushed(events, k));
                }
            }
            if some_push_returned(prev, n - 1, r) {
                let k = choose|k: int| 0 <= k < n - 1 && #[trigger] pushed(prev, k) == Ok::<Option<ResponseView>, AssemblyErrorView>(Some(r));
                assert(pushed(events, k) == pushed(prev, k));
            }
            if out == Ok::<Option<ResponseView>, AssemblyErrorView>(Some(r)) {
                assert(pushed(events, n - 1) == out);
            }
        }
    }
}

/// Fail-closed over any sequence of events: the stream's end is refused as
/// poisoned exactly when some push failed; it gives a response exactly when
/// no push failed and some push returned that response; otherwise it is an
/// unexpected end.
pub proof fn lemma_finish_after_pushes(events: Seq<EventView>)
    ensures
        finish_view(push_all(AssemblerView::AwaitingStart, events)) == Err::<ResponseView, AssemblyErrorView>(
            AssemblyErrorView::Poisoned,
        ) <==> some_push_failed(events, events.len() as int),
        forall|r: ResponseView|
            finish_view(push_all(AssemblerView::AwaitingStart, events)) == Ok::<ResponseView, AssemblyErrorView>(r)
                <==> (!some_push_failed(events, events.len() as int) && #[trigger] some_push_returned(
                events,
                events.len() as int,
                r,
            )),
        finish_view(push_all(AssemblerView::AwaitingStart, events)) == Err::<ResponseView, AssemblyErrorView>(
            AssemblyErrorView::UnexpectedEnd,
        ) <==> (!some_push_failed(events, events.len() as int) && forall|r: ResponseView|
            !#[trigger] some_push_returned(events, events.len() as int, r)),
{
    lemma_pushes_explain(events);
    let st = push_all(AssemblerView::AwaitingStart, events);
    let n = events.len() as int;
    if let AssemblerView::Terminal(x) = st {
        assert(some_push_returned(events, n, x));
    }
}

} // verus!
