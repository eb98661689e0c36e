//! The script of a deterministic recorded provider.
//!
//! A script is an ordered list of exchanges: an expected request and what
//! the provider answers. Each request is matched against the next scripted
//! expectation. A request that does not match, or that arrives after the
//! script is exhausted, is rejected and recorded as a violation, so that a
//! test can fail on it even when the caller swallows the provider error.

use crate::provider::{
    MessageContent, ModelEvent, ModelId, ModelMessage, ModelRequest, ModelToolSpec,
    ProviderError, ToolCallId,
};
use crate::text::{decimal, decimal_text};
use vstd::prelude::*;
use vstd::string::StringExecFns;

verus! {

/// A declarative match against one request. Every field is opt-in; an unset
/// field is not checked.
#[derive(Debug)]
pub struct ExpectedRequest {
    model: Option<ModelId>,
    message_count: Option<usize>,
    tool_names: Option<Vec<String>>,
    tool_result_call_ids: Option<Vec<ToolCallId>>,
}

/// An expectation taken by view.
pub struct ExpectedView {
    pub model: Option<Seq<char>>,
    pub message_count: Option<usize>,
    pub tool_names: Option<Seq<Seq<char>>>,
    pub tool_result_call_ids: Option<Seq<Seq<char>>>,
}

/// The texts of a list of strings.
pub open spec fn texts(s: Seq<String>) -> Seq<Seq<char>> {
    s.map_values(|t: String| t@)
}

/// The texts of a list of tool call ids.
pub open spec fn call_id_texts(s: Seq<ToolCallId>) -> Seq<Seq<char>> {
    s.map_values(|t: ToolCallId| t@)
}

impl View for ExpectedRequest {
    type V = ExpectedView;

    closed spec fn view(&self) -> ExpectedView {
        ExpectedView {
            model: match self.model {
                Some(m) => Some(m@),
                None => None,
            },
            message_count: self.message_count,
            tool_names: match self.tool_names {
                Some(v) => Some(texts(v@)),
                None => None,
            },
            tool_result_call_ids: match self.tool_result_call_ids {
                Some(v) => Some(call_id_texts(v@)),
                None => None,
            },
        }
    }
}

/// The names of the request's tools, in order.
pub open spec fn request_tool_names(tools: Seq<ModelToolSpec>) -> Seq<Seq<char>> {
    tools.map_values(|t: ModelToolSpec| t.name@)
}

/// The call ids of the tool results among message parts, in order.
pub open spec fn content_result_ids(content: Seq<MessageContent>) -> Seq<Seq<char>>
    decreases content.len(),
{
    if content.len() == 0 {
        Seq::empty()
    } else {
        let rest = content_result_ids(content.drop_last());
        match content.last() {
            MessageContent::ToolResult { call_id, .. } => rest.push(call_id@),
            _ => rest,
        }
    }
}

/// The call ids of the tool results the messages carry, in order.
pub open spec fn message_result_ids(messages: Seq<ModelMessage>) -> Seq<Seq<char>>
    decreases messages.len(),
{
    if messages.len() == 0 {
        Seq::empty()
    } else {
        message_result_ids(messages.drop_last()) + content_result_ids(messages.last().content@)
    }
}

/// The `Debug` text of a list of strings: each quoted and escaped, comma
/// separated, in brackets.
pub uninterp spec fn spec_debug_texts(items: Seq<Seq<char>>) -> Seq<char>;

/// The `Debug` text of a list of tool call ids.
pub uninterp spec fn spec_debug_call_ids(items: Seq<Seq<char>>) -> Seq<char>;

/// Formats the list with `{:?}`. The contract claims that the text is a
/// function of the strings.
#[verifier::external_body]
fn debug_texts(items: &Vec<String>) -> (r: String)
    ensures
        r@ == spec_debug_texts(texts(items@)),
{
    format!("{items:?}")
}

/// Formats the list with `{:?}`. The contract claims that the text is a
/// function of the ids' texts.
#[verifier::external_body]
fn debug_call_ids(items: &Vec<ToolCallId>) -> (r: String)
    ensures
        r@ == spec_debug_call_ids(call_id_texts(items@)),
{
    format!("{items:?}")
}

/// "request {index}: " before each mismatch.
pub open spec fn request_prefix(index: nat) -> Seq<char> {
    "request "@ + decimal(index) + ": "@
}

/// What matching a request against an expectation gives: the first
/// mismatch, checked as model, message count, tool names, then tool result
/// order, or success.
pub open spec fn check_outcome(e: ExpectedView, index: nat, request: ModelRequest) -> Result<
    (),
    Seq<char>,
> {
    let names = request_tool_names(request.tools@);
    let results = message_result_ids(request.messages@);
    if e.model is Some && e.model->0 != request.model@ {
        Err(request_prefix(index) + "expected model "@ + e.model->0 + ", got "@ + request.model@)
    } else if e.message_count is Some && e.message_count->0 != request.messages@.len() {
        Err(
            request_prefix(index) + "expected "@ + decimal(e.message_count->0 as nat)
                + " messages, got "@ + decimal(request.messages@.len()),
        )
    } else if e.tool_names is Some && e.tool_names->0 != names {
        Err(
            request_prefix(index) + "expected tools "@ + spec_debug_texts(e.tool_names->0)
                + ", got "@ + spec_debug_texts(names),
        )
    } else if e.tool_result_call_ids is Some && e.tool_result_call_ids->0 != results {
        Err(
            request_prefix(index) + "expected tool results "@ + spec_debug_call_ids(
                e.tool_result_call_ids->0,
            ) + ", got "@ + spec_debug_call_ids(results),
        )
    } else {
        Ok(())
    }
}

/// The names, in order, are those of the tools.
pub open spec fn names_match(names: Seq<Seq<char>>, tools: Seq<ModelToolSpec>) -> bool {
    names.len() == tools.len() && forall|i: int| 0 <= i < names.len() ==> names[i] == tools[i].name@
}

/// A request passes its expectation exactly when every part the expectation
/// names matches: the model, the number of messages, the tool names in
/// order, and the order of tool results. A mismatch fails the check, and
/// when model and message count match but the tools differ, the failure
/// names the tools expected and the tools received.
pub proof fn lemma_check_matches_every_named_part(e: ExpectedView, index: nat, request: ModelRequest)
    ensures
        check_outcome(e, index, request) is Ok <==> {
            &&& (e.model matches Some(m) ==> m == request.model@)
            &&& (e.message_count matches Some(n) ==> n == request.messages@.len())
            &&& (e.tool_names matches Some(names) ==> names_match(names, request.tools@))
            &&& (e.tool_result_call_ids matches Some(ids) ==> ids == message_result_ids(
                request.messages@,
            ))
        },
        (e.model matches Some(m) ==> m == request.model@) && (e.message_count matches Some(n) ==> n
            == request.messages@.len()) && (e.tool_names matches Some(names) ==> !names_match(
            names,
            request.tools@,
        )) && e.tool_names is Some ==> check_outcome(e, index, request) == Err::<(), Seq<char>>(
            request_prefix(index) + "expected tools "@ + spec_debug_texts(e.tool_names->0)
                + ", got "@ + spec_debug_texts(
                request.tools@.map_values(|t: ModelToolSpec| t.name@),
            ),
        ),
{
    let names = request_tool_names(request.tools@);
    if let Some(n) = e.tool_names {
        if names_match(n, request.tools@) {
            assert(n =~= names);
        }
        if n == names {
            assert(names_match(n, request.tools@));
        }
    }
}

fn request_prefix_text(index: usize) -> (r: String)
    ensures
        r@ == request_prefix(index as nat),
{
    let mut text = "request ".to_string();
    let n = decimal_text(index);
    text.append(n.as_str());
    text.append(": ");
    text
}

/// The names of the request's tools.
fn tool_names_of(tools: &Vec<ModelToolSpec>) -> (r: Vec<String>)
    ensures
        texts(r@) == request_tool_names(tools@),
{
    let mut out: Vec<String> = Vec::new();
    let mut i: usize = 0;
    while i < tools.len()
        invariant
            0 <= i <= tools@.len(),
            texts(out@) == request_tool_names(tools@.subrange(0, i as int)),
        decreases tools.len() - i,
    {
        let ghost before = out@;
        out.push(tools[i].name.clone());
        proof {
            let prefix = tools@.subrange(0, i as int);
            let next = tools@.subrange(0, i + 1);
            assert(next =~= prefix.push(tools@[i as int]));
            assert(request_tool_names(next) =~= request_tool_names(prefix).push(tools@[i as int].name@));
            assert(out@ =~= before.push(out@[i as int]));
            assert(texts(out@) =~= texts(before).push(out@[i as int]@));
        }
        i = i + 1;
    }
    proof {
        assert(tools@.subrange(0, tools@.len() as int) =~= tools@);
    }
    out
}

/// The call ids of the tool results the messages carry.
fn result_ids_of(messages: &Vec<ModelMessage>) -> (r: Vec<ToolCallId>)
    ensures
        call_id_texts(r@) == message_result_ids(messages@),
{
    let mut out: Vec<ToolCallId> = Vec::new();
    let mut i: usize = 0;
    while i < messages.len()
        invariant
            0 <= i <= messages@.len(),
            call_id_texts(out@) == message_result_ids(messages@.subrange(0, i as int)),
        decreases messages.len() - i,
    {
        let content = &messages[i].content;
        let ghost before = call_id_texts(out@);
        let mut j: usize = 0;
        while j < content.len()
            invariant
                0 <= j <= content@.len(),
                call_id_texts(out@) == before + content_result_ids(content@.subrange(0, j as int)),
            decreases content.len() - j,
        {
            proof {
                assert(content@.subrange(0, j + 1).drop_last() =~= content@.subrange(0, j as int));
                assert(content@.subrange(0, j + 1).last() == content@[j as int]);
            }
            match &content[j] {
                MessageContent::ToolResult { call_id, .. } => {
                    let ghost old_out = out@;
                    out.push(call_id.clone());
                    proof {
                        assert(out@ =~= old_out.push(out@[old_out.len() as int]));
                        assert(call_id_texts(out@) =~= call_id_texts(old_out).push(call_id@));
                        assert(call_id_texts(out@) =~= before + content_result_ids(
                            content@.subrange(0, j + 1),
                        ));
                    }
                },
                _ => {
                    proof {
                        assert(call_id_texts(out@) =~= before + content_result_ids(
                            content@.subrange(0, j + 1),
                        ));
                    }
                },
            }
            j = j + 1;
        }
        proof {
            assert(content@.subrange(0, content@.len() as int) =~= content@);
            assert(messages@.subrange(0, i + 1).drop_last() =~= messages@.subrange(0, i as int));
        }
        i = i + 1;
    }
    proof {
        assert(messages@.subrange(0, messages@.len() as int) =~= messages@);
    }
    out
}

/// Whether two lists hold the same texts.
fn same_texts(a: &Vec<String>, b: &Vec<String>) -> (r: bool)
    ensures
        r == (texts(a@) == texts(b@)),
{
    if a.len() != b.len() {
        assert(texts(a@).len() != texts(b@).len());
        return false;
    }
    let mut i: usize = 0;
    while i < a.len()
        invariant
            0 <= i <= a@.len(),
            a@.len() == b@.len(),
            forall|k: int| 0 <= k < i ==> a@[k]@ == b@[k]@,
        decreases a.len() - i,
    {
        if a[i] != b[i] {
            assert(texts(a@)[i as int] != texts(b@)[i as int]);
            return false;
        }
        i = i + 1;
    }
    assert(texts(a@) =~= texts(b@));
    true
}

/// Whether two lists hold the same call ids.
fn same_call_ids(a: &Vec<ToolCallId>, b: &Vec<ToolCallId>) -> (r: bool)
    ensures
        r == (call_id_texts(a@) == call_id_texts(b@)),
{
    if a.len() != b.len() {
        assert(call_id_texts(a@).len() != call_id_texts(b@).len());
        return false;
    }
    let mut i: usize = 0;
    while i < a.len()
        invariant
            0 <= i <= a@.len(),
            a@.len() == b@.len(),
            forall|k: int| 0 <= k < i ==> a@[k]@ == b@[k]@,
        decreases a.len() - i,
    {
        if !a[i].same_as(&b[i]) {
            assert(call_id_texts(a@)[i as int] != call_id_texts(b@)[i as int]);
            return false;
        }
        i = i + 1;
    }
    assert(call_id_texts(a@) =~= call_id_texts(b@));
    true
}

impl ExpectedRequest {
    /// Accepts any request.
    pub fn any() -> (r: ExpectedRequest)
        ensures
            r@.model is None,
            r@.message_count is None,
            r@.tool_names is None,
            r@.tool_result_call_ids is None,
    {
        ExpectedRequest {
            model: None,
            message_count: None,
            tool_names: None,
            tool_result_call_ids: None,
        }
    }

    /// Requires an exact model pin.
    pub fn model(self, model: ModelId) -> (r: ExpectedRequest)
        ensures
            r@ == (ExpectedView { model: Some(model@), ..self@ }),
    {
        ExpectedRequest { model: Some(model), ..self }
    }

    /// Requires an exact conversation length.
    pub fn message_count(self, count: usize) -> (r: ExpectedRequest)
        ensures
            r@ == (ExpectedView { message_count: Some(count), ..self@ }),
    {
        ExpectedRequest { message_count: Some(count), ..self }
    }

    /// Requires exactly these tool specs, in this order.
    pub fn tools(self, names: Vec<String>) -> (r: ExpectedRequest)
        ensures
            r@ == (ExpectedView { tool_names: Some(texts(names@)), ..self@ }),
    {
        ExpectedRequest { tool_names: Some(names), ..self }
    }

    /// Requires that the model-visible tool results the request carries
    /// appear in exactly this order: the provider source order the kernel
    /// must keep.
    pub fn tool_results_in_order(self, call_ids: Vec<ToolCallId>) -> (r: ExpectedRequest)
        ensures
            r@ == (ExpectedView { tool_result_call_ids: Some(call_id_texts(call_ids@)), ..self@ }),
    {
        ExpectedRequest { tool_result_call_ids: Some(call_ids), ..self }
    }

    /// Matches request `index` against this expectation.
    pub fn check(&self, index: usize, request: &ModelRequest) -> (r: Result<(), String>)
        ensures
            match r {
                Ok(()) => check_outcome(self@, index as nat, *request) is Ok,
                Err(m) => check_outcome(self@, index as nat, *request) == Err::<(), Seq<char>>(
                    m@,
                ),
            },
    {
        if let Some(model) = &self.model {
            if !model.same_as(&request.model) {
                let mut text = request_prefix_text(index);
                text.append("expected model ");
                text.append(model.as_str());
                text.append(", got ");
                text.append(request.model.as_str());
                return Err(text);
            }
        }
        if let Some(count) = self.message_count {
            if count != request.messages.len() {
                let mut text = request_prefix_text(index);
                text.append("expected ");
                let expected = decimal_text(count);
                text.append(expected.as_str());
                text.append(" messages, got ");
                let actual = decimal_text(request.messages.len());
                text.append(actual.as_str());
                return Err(text);
            }
        }
        if let Some(expected) = &self.tool_names {
            let actual = tool_names_of(&request.tools);
            if !same_texts(expected, &actual) {
                let mut text = request_prefix_text(index);
                text.append("expected tools ");
                let e = debug_texts(expected);
                text.append(e.as_str());
                text.append(", got ");
                let a = debug_texts(&actual);
                text.append(a.as_str());
                return Err(text);
            }
        }
        if let Some(expected) = &self.tool_result_call_ids {
            let actual = result_ids_of(&request.messages);
            if !same_call_ids(expected, &actual) {
                let mut text = request_prefix_text(index);
                text.append("expected tool results ");
                let e = debug_call_ids(expected);
                text.append(e.as_str());
                text.append(", got ");
                let a = debug_call_ids(&actual);
                text.append(a.as_str());
                return Err(text);
            }
        }
        Ok(())
    }
}

/// What the provider does once a request matches its expectation.
#[derive(Debug)]
pub enum RecordedOutcome {
    /// Emit these normalized events, in order. A script whose last event is
    /// not terminal reproduces an interrupted model attempt.
    Stream(Vec<ModelEvent>),
    /// Fail before any normalized stream exists.
    Unavailable(ProviderError),
}

/// One scripted exchange.
#[derive(Debug)]
pub struct Exchange {
    pub expect: ExpectedRequest,
    pub outcome: RecordedOutcome,
}

/// The script a recorded provider replays, with the requests it received
/// and the violations it saw.
#[derive(Debug)]
pub struct RecordedScript {
    exchanges: Vec<Exchange>,
    requests: Vec<ModelRequest>,
    violations: Vec<String>,
}

/// The message of the request that found the script exhausted.
pub open spec fn exhausted_text(index: nat) -> Seq<char> {
    request_prefix(index) + "script exhausted, no exchange remains"@
}

/// The violations joined with `"; "`.
pub open spec fn joined(s: Seq<Seq<char>>) -> Seq<char>
    decreases s.len(),
{
    if s.len() == 0 {
        Seq::empty()
    } else if s.len() == 1 {
        s[0]
    } else {
        joined(s.drop_last()) + "; "@ + s.last()
    }
}

impl RecordedScript {
    pub closed spec fn pending(&self) -> Seq<Exchange> {
        self.exchanges@
    }

    pub closed spec fn received(&self) -> Seq<ModelRequest> {
        self.requests@
    }

    pub closed spec fn seen_violations(&self) -> Seq<Seq<char>> {
        texts(self.violations@)
    }

    pub fn new() -> (r: RecordedScript)
        ensures
            r.pending().len() == 0,
            r.received().len() == 0,
            r.seen_violations().len() == 0,
    {
        RecordedScript { exchanges: Vec::new(), requests: Vec::new(), violations: Vec::new() }
    }

    /// Appends one scripted exchange.
    pub fn push(&mut self, expect: ExpectedRequest, outcome: RecordedOutcome)
        ensures
            final(self).pending() == old(self).pending().push(Exchange { expect, outcome }),
            final(self).received() == old(self).received(),
            final(self).seen_violations() == old(self).seen_violations(),
    {
        self.exchanges.push(Exchange { expect, outcome });
    }

    /// Scripted exchanges not yet consumed.
    pub fn remaining(&self) -> (r: usize)
        ensures
            r == self.pending().len(),
    {
        self.exchanges.len()
    }

    /// Every request received so far, in order.
    pub fn requests(&self) -> (r: &Vec<ModelRequest>)
        ensures
            r@ == self.received(),
    {
        &self.requests
    }

    /// Takes one request: it is journaled, matched against the next
    /// exchange, and answered with that exchange's outcome. A request after
    /// the script is exhausted, or one that does not match, is recorded as a
    /// violation and rejected.
    pub fn receive(&mut self, request: ModelRequest) -> (r: Result<Vec<ModelEvent>, ProviderError>)
        requires
            old(self).received().len() < usize::MAX,
        ensures
            final(self).received() == old(self).received().push(request),
            old(self).pending().len() == 0 ==> {
                &&& final(self).pending() == old(self).pending()
                &&& final(self).seen_violations() == old(self).seen_violations().push(
                    exhausted_text(old(self).received().len()),
                )
                &&& r matches Err(ProviderError::Request(m)) && m@ == exhausted_text(
                    old(self).received().len(),
                )
            },
            old(self).pending().len() > 0 ==> {
                let next = old(self).pending()[0];
                &&& final(self).pending() == old(self).pending().drop_first()
                &&& match check_outcome(next.expect@, old(self).received().len(), request) {
                    Err(m) => {
                        &&& final(self).seen_violations() == old(self).seen_violations().push(m)
                        &&& r matches Err(ProviderError::Request(t)) && t@ == m
                    },
                    Ok(()) => {
                        &&& final(self).seen_violations() == old(self).seen_violations()
                        &&& match next.outcome {
                            RecordedOutcome::Unavailable(e) => r == Err::<
                                Vec<ModelEvent>,
                                ProviderError,
                            >(e),
                            RecordedOutcome::Stream(events) => r == Ok::<
                                Vec<ModelEvent>,
                                ProviderError,
                            >(events),
                        }
                    },
                }
            },
    {
        let index = self.requests.len();
        if self.exchanges.len() == 0 {
            self.requests.push(request);
            let mut detail = request_prefix_text(index);
            detail.append("script exhausted, no exchange remains");
            self.violations.push(detail.clone());
            proof {
                assert(texts(self.violations@) =~= texts(old(self).violations@).push(detail@));
            }
            return Err(ProviderError::Request(detail));
        }
        let exchange = self.exchanges.remove(0);
        proof {
            assert(self.exchanges@ =~= old(self).exchanges@.drop_first());
        }
        let checked = exchange.expect.check(index, &request);
        self.requests.push(request);
        match checked {
            Err(detail) => {
                self.violations.push(detail.clone());
                proof {
                    assert(texts(self.violations@) =~= texts(old(self).violations@).push(detail@));
                }
                Err(ProviderError::Request(detail))
            },
            Ok(()) => match exchange.outcome {
                RecordedOutcome::Unavailable(error) => Err(error),
                RecordedOutcome::Stream(events) => Ok(events),
            },
        }
    }

    /// Confirms the script was followed exactly: no mismatched or extra
    /// request, and no scripted exchange left unused.
    pub fn verify(&self) -> (r: Result<(), String>)
        ensures
            self.seen_violations().len() > 0 ==> (r matches Err(m) && m@ == joined(
                self.seen_violations(),
            )),
            self.seen_violations().len() == 0 && self.pending().len() > 0 ==> (r matches Err(m)
                && m@ == decimal(self.pending().len()) + " scripted exchange(s) were never used"@),
            self.seen_violations().len() == 0 && self.pending().len() == 0 ==> r is Ok,
    {
        if self.violations.len() > 0 {
            let mut text = self.violations[0].clone();
            let mut i: usize = 1;
            while i < self.violations.len()
                invariant
                    1 <= i <= self.violations@.len(),
                    text@ == joined(texts(self.violations@).subrange(0, i as int)),
                decreases self.violations.len() - i,
            {
                proof {
                    let s = texts(self.violations@);
                    assert(s.subrange(0, i + 1).drop_last() =~= s.subrange(0, i as int));
                }
                text.append("; ");
                text.append(self.violations[i].as_str());
                i = i + 1;
            }
            proof {
                let s = texts(self.violations@);
                assert(s.subrange(0, s.len() as int) =~= s);
            }
            return Err(text);
        }
        let remaining = self.exchanges.len();
        if remaining > 0 {
            let mut text = decimal_text(remaining);
            text.append(" scripted exchange(s) were never used");
            return Err(text);
        }
        Ok(())
    }
}

/// What a recorded stream hands on for its next scripted event: the event
/// itself, or, once the call is cancelled, an abort that ends the stream.
/// The flag says whether the stream ends.
pub fn next_recorded_event(event: ModelEvent, cancelled: bool) -> (r: (ModelEvent, bool))
    ensures
        cancelled ==> r.1 && (r.0 matches ModelEvent::Aborted { message: Some(m) } && m@
            == "cancelled"@),
        !cancelled ==> !r.1 && r.0 == event,
{
    if cancelled {
        (ModelEvent::Aborted { message: Some("cancelled".to_string()) }, true)
    } else {
        (event, false)
    }
}

} // verus!
