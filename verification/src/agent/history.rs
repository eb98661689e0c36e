//! The durable Agent history: model-visible entries and operational records.

use crate::ids::{
    AgentEntryId, AgentRunId, LogicalToolCallId, ModelAttemptId, Timestamp, ToolAttemptId,
};
use crate::json::{lemma_same_json_reflexive, same_json, JsonValue};
use crate::provider::{opt_text, CompletionReason, ModelUsage, ToolCallId};
use crate::tools::disposition::{ToolPreparationDisposition, ToolPreparationStage};
use vstd::prelude::*;

verus! {

/// One tool call of an assistant message, with its run-owned logical id.
#[derive(Debug, PartialEq)]
pub struct AgentToolCall {
    pub logical_id: LogicalToolCallId,
    pub provider_call_id: ToolCallId,
    pub name: String,
    pub arguments_json: String,
    pub arguments: JsonValue,
}

#[derive(Debug, PartialEq)]
pub enum AgentAssistantContent {
    Text { text: String },
    ToolCall { call: AgentToolCall },
}

/// The logical ids of the tool calls among message parts, in order.
pub open spec fn logical_calls_of(content: Seq<AgentAssistantContent>) -> Seq<LogicalToolCallId>
    decreases content.len(),
{
    if content.len() == 0 {
        Seq::empty()
    } else {
        let rest = logical_calls_of(content.drop_last());
        match content.last() {
            AgentAssistantContent::ToolCall { call } => rest.push(call.logical_id),
            _ => rest,
        }
    }
}

/// The tool calls among message parts, in order.
pub open spec fn tool_calls_of(content: Seq<AgentAssistantContent>) -> Seq<AgentToolCall>
    decreases content.len(),
{
    if content.len() == 0 {
        Seq::empty()
    } else {
        let rest = tool_calls_of(content.drop_last());
        match content.last() {
            AgentAssistantContent::ToolCall { call } => rest.push(call),
            _ => rest,
        }
    }
}

/// A durable assistant message.
#[derive(Debug, PartialEq)]
pub struct DurableAssistantMessage {
    pub content: Vec<AgentAssistantContent>,
    pub stop_reason: CompletionReason,
    pub usage: Option<ModelUsage>,
    pub provider_request_id: Option<String>,
}

impl DurableAssistantMessage {
    /// The message's tool calls, in order.
    pub fn tool_calls(&self) -> (r: Vec<&AgentToolCall>)
        ensures
            r@.len() == tool_calls_of(self.content@).len(),
            forall|k: int| 0 <= k < r@.len() ==> *#[trigger] r@[k] == tool_calls_of(self.content@)[k],
    {
        let mut calls: Vec<&AgentToolCall> = Vec::new();
        let mut i: usize = 0;
        while i < self.content.len()
            invariant
                0 <= i <= self.content@.len(),
                calls@.len() == tool_calls_of(self.content@.subrange(0, i as int)).len(),
                forall|k: int|
                    0 <= k < calls@.len() ==> *#[trigger] calls@[k] == tool_calls_of(
                        self.content@.subrange(0, i as int),
                    )[k],
            decreases self.content.len() - i,
        {
            proof {
                assert(self.content@.subrange(0, i + 1).drop_last() == self.content@.subrange(
                    0,
                    i as int,
                ));
            }
            match &self.content[i] {
                AgentAssistantContent::ToolCall { call } => {
                    calls.push(call);
                },
                _ => {},
            }
            i = i + 1;
        }
        proof {
            assert(self.content@.subrange(0, self.content@.len() as int) == self.content@);
        }
        calls
    }

    /// The logical ids of the message's tool calls, in order.
    pub fn tool_call_ids(&self) -> (r: Vec<LogicalToolCallId>)
        ensures
            r@ == logical_calls_of(self.content@),
    {
        let mut ids: Vec<LogicalToolCallId> = Vec::new();
        let mut i: usize = 0;
        while i < self.content.len()
            invariant
                0 <= i <= self.content@.len(),
                ids@ == logical_calls_of(self.content@.subrange(0, i as int)),
            decreases self.content.len() - i,
        {
            proof {
                assert(self.content@.subrange(0, i + 1).drop_last() == self.content@.subrange(
                    0,
                    i as int,
                ));
            }
            match &self.content[i] {
                AgentAssistantContent::ToolCall { call } => {
                    ids.push(call.logical_id);
                },
                _ => {},
            }
            i = i + 1;
        }
        proof {
            assert(self.content@.subrange(0, self.content@.len() as int) == self.content@);
        }
        ids
    }
}

/// What one durable entry holds.
#[derive(Debug, PartialEq)]
pub enum AgentEntryData {
    UserInput { text: String },
    AssistantMessage { attempt_id: ModelAttemptId, message: DurableAssistantMessage },
    ModelVisibleToolResult {
        logical_call_id: LogicalToolCallId,
        attempt_id: ToolAttemptId,
        tool_name: String,
        content: JsonValue,
        is_error: bool,
    },
}

/// One model-visible durable entry.
#[derive(Debug, PartialEq)]
pub struct AgentEntry {
    pub id: AgentEntryId,
    pub run_id: AgentRunId,
    pub ordinal: u64,
    pub created_at: Timestamp,
    pub data: AgentEntryData,
}

/// Why a model attempt ended without a response.
#[derive(Debug, PartialEq, Eq)]
pub enum ModelAttemptInterruptReason {
    ProviderDisconnected,
    ProviderFailed { code: String },
    Cancelled,
    RuntimeRestart,
    Other { code: String },
}

/// How an Agent run ended.
#[derive(Debug, PartialEq, Eq)]
pub enum AgentTerminalResult {
    Succeeded { assistant_entry_id: AgentEntryId },
    Failed { code: String, message: String },
    Cancelled,
    TimedOut,
    BudgetExhausted { limit: String },
    RequiresIntervention { reason: String },
}

impl Clone for AgentTerminalResult {
    fn clone(&self) -> (r: Self)
        ensures
            r == *self,
    {
        match self {
            AgentTerminalResult::Succeeded { assistant_entry_id } => AgentTerminalResult::Succeeded {
                assistant_entry_id: *assistant_entry_id,
            },
            AgentTerminalResult::Failed { code, message } => AgentTerminalResult::Failed {
                code: code.clone(),
                message: message.clone(),
            },
            AgentTerminalResult::Cancelled => AgentTerminalResult::Cancelled,
            AgentTerminalResult::TimedOut => AgentTerminalResult::TimedOut,
            AgentTerminalResult::BudgetExhausted { limit } => AgentTerminalResult::BudgetExhausted {
                limit: limit.clone(),
            },
            AgentTerminalResult::RequiresIntervention { reason } => {
                AgentTerminalResult::RequiresIntervention { reason: reason.clone() }
            },
        }
    }
}

/// The normalized outcome of one tool effect, before any model-visible entry.
#[derive(Debug, PartialEq)]
pub enum ToolEffectResult {
    Output { content: JsonValue },
    Error { code: String, message: String },
}

impl Clone for ToolEffectResult {
    fn clone(&self) -> (r: Self)
        ensures
            r == *self,
    {
        match self {
            ToolEffectResult::Output { content } => ToolEffectResult::Output {
                content: content.clone(),
            },
            ToolEffectResult::Error { code, message } => ToolEffectResult::Error {
                code: code.clone(),
                message: message.clone(),
            },
        }
    }
}

/// One operational record.
#[allow(inconsistent_fields)]
#[derive(Debug, PartialEq)]
pub enum AgentRecordData {
    ModelAttemptStarted { attempt_id: ModelAttemptId, request_ordinal: u64 },
    ModelAttemptInterrupted { attempt_id: ModelAttemptId, reason: ModelAttemptInterruptReason },
    ModelAttemptCompleted { attempt_id: ModelAttemptId, assistant_entry_id: AgentEntryId },
    ToolAttemptStarted { attempt_id: ToolAttemptId, logical_call_id: LogicalToolCallId },
    /// Embeds the tools-owned preparation taxonomy.
    ToolCallPrepared {
        attempt_id: ToolAttemptId,
        logical_call_id: LogicalToolCallId,
        assistant_entry_id: AgentEntryId,
        source_index: u32,
        provider_call_id: ToolCallId,
        requested_tool_name: String,
        result_entry_id: AgentEntryId,
        disposition: Box<ToolPreparationDisposition>,
    },
    /// The ambiguity boundary. It never proves the external effect occurred.
    ToolEffectStarted { attempt_id: ToolAttemptId },
    ToolEffectCompleted { attempt_id: ToolAttemptId, result: ToolEffectResult },
    /// Resolve, Validate, or Classify no-effect settlement.
    ToolAttemptRejected {
        attempt_id: ToolAttemptId,
        result_entry_id: AgentEntryId,
        failed_at: ToolPreparationStage,
    },
    ToolAttemptInterrupted { attempt_id: ToolAttemptId, reason: String },
    ToolAttemptDenied { attempt_id: ToolAttemptId, result_entry_id: AgentEntryId },
    ToolAttemptCompleted { attempt_id: ToolAttemptId, result_entry_id: AgentEntryId },
    ToolAttemptIntervention { attempt_id: ToolAttemptId, reason: String },
    TurnCommitted {
        turn_ordinal: u64,
        assistant_entry_id: AgentEntryId,
        tool_result_entry_ids: Vec<AgentEntryId>,
    },
    AgentResultCommitted { result: AgentTerminalResult },
}

impl AgentRecordData {
    /// The record's durable name.
    pub open spec fn spec_kind(&self) -> &'static str {
        match self {
            AgentRecordData::ModelAttemptStarted { .. } => "model_attempt_started",
            AgentRecordData::ModelAttemptInterrupted { .. } => "model_attempt_interrupted",
            AgentRecordData::ModelAttemptCompleted { .. } => "model_attempt_completed",
            AgentRecordData::ToolAttemptStarted { .. } => "tool_attempt_started",
            AgentRecordData::ToolCallPrepared { .. } => "tool_call_prepared",
            AgentRecordData::ToolEffectStarted { .. } => "tool_effect_started",
            AgentRecordData::ToolEffectCompleted { .. } => "tool_effect_completed",
            AgentRecordData::ToolAttemptRejected { .. } => "tool_attempt_rejected",
            AgentRecordData::ToolAttemptInterrupted { .. } => "tool_attempt_interrupted",
            AgentRecordData::ToolAttemptDenied { .. } => "tool_attempt_denied",
            AgentRecordData::ToolAttemptCompleted { .. } => "tool_attempt_completed",
            AgentRecordData::ToolAttemptIntervention { .. } => "tool_attempt_intervention",
            AgentRecordData::TurnCommitted { .. } => "turn_committed",
            AgentRecordData::AgentResultCommitted { .. } => "agent_result_committed",
        }
    }

    pub fn kind(&self) -> (r: &'static str)
        ensures
            r == self.spec_kind(),
    {
        match self {
            AgentRecordData::ModelAttemptStarted { .. } => "model_attempt_started",
            AgentRecordData::ModelAttemptInterrupted { .. } => "model_attempt_interrupted",
            AgentRecordData::ModelAttemptCompleted { .. } => "model_attempt_completed",
            AgentRecordData::ToolAttemptStarted { .. } => "tool_attempt_started",
            AgentRecordData::ToolCallPrepared { .. } => "tool_call_prepared",
            AgentRecordData::ToolEffectStarted { .. } => "tool_effect_started",
            AgentRecordData::ToolEffectCompleted { .. } => "tool_effect_completed",
            AgentRecordData::ToolAttemptRejected { .. } => "tool_attempt_rejected",
            AgentRecordData::ToolAttemptInterrupted { .. } => "tool_attempt_interrupted",
            AgentRecordData::ToolAttemptDenied { .. } => "tool_attempt_denied",
            AgentRecordData::ToolAttemptCompleted { .. } => "tool_attempt_completed",
            AgentRecordData::ToolAttemptIntervention { .. } => "tool_attempt_intervention",
            AgentRecordData::TurnCommitted { .. } => "turn_committed",
            AgentRecordData::AgentResultCommitted { .. } => "agent_result_committed",
        }
    }
}

/// One durable operational record.
#[derive(Debug, PartialEq)]
pub struct AgentRecord {
    pub run_id: AgentRunId,
    pub sequence: u64,
    pub recorded_at: Timestamp,
    pub data: AgentRecordData,
}

/// Two tool calls hold the same values.
pub open spec fn same_tool_call(a: AgentToolCall, b: AgentToolCall) -> bool {
    &&& a.logical_id == b.logical_id
    &&& a.provider_call_id@ == b.provider_call_id@
    &&& a.name@ == b.name@
    &&& a.arguments_json@ == b.arguments_json@
    &&& same_json(a.arguments, b.arguments)
}

pub open spec fn same_content(a: AgentAssistantContent, b: AgentAssistantContent) -> bool {
    match (a, b) {
        (AgentAssistantContent::Text { text: x }, AgentAssistantContent::Text { text: y }) => x@
            == y@,
        (
            AgentAssistantContent::ToolCall { call: x },
            AgentAssistantContent::ToolCall { call: y },
        ) => same_tool_call(x, y),
        _ => false,
    }
}

pub open spec fn same_contents(a: Seq<AgentAssistantContent>, b: Seq<AgentAssistantContent>) -> bool {
    a.len() == b.len() && forall|i: int| 0 <= i < a.len() ==> same_content(#[trigger] a[i], b[i])
}

/// Two assistant messages hold the same values.
pub open spec fn same_message(a: DurableAssistantMessage, b: DurableAssistantMessage) -> bool {
    &&& same_contents(a.content@, b.content@)
    &&& a.stop_reason == b.stop_reason
    &&& a.usage == b.usage
    &&& opt_text(a.provider_request_id) == opt_text(b.provider_request_id)
}

pub open spec fn same_entry_data(a: AgentEntryData, b: AgentEntryData) -> bool {
    match (a, b) {
        (AgentEntryData::UserInput { text: x }, AgentEntryData::UserInput { text: y }) => x@ == y@,
        (
            AgentEntryData::AssistantMessage { attempt_id: x, message: m },
            AgentEntryData::AssistantMessage { attempt_id: y, message: n },
        ) => x == y && same_message(m, n),
        (
            AgentEntryData::ModelVisibleToolResult {
                logical_call_id: c1,
                attempt_id: a1,
                tool_name: t1,
                content: j1,
                is_error: e1,
            },
            AgentEntryData::ModelVisibleToolResult {
                logical_call_id: c2,
                attempt_id: a2,
                tool_name: t2,
                content: j2,
                is_error: e2,
            },
        ) => c1 == c2 && a1 == a2 && t1@ == t2@ && same_json(j1, j2) && e1 == e2,
        _ => false,
    }
}

/// Two entries hold the same values.
pub open spec fn same_entry(a: AgentEntry, b: AgentEntry) -> bool {
    &&& a.id == b.id
    &&& a.run_id == b.run_id
    &&& a.ordinal == b.ordinal
    &&& a.created_at == b.created_at
    &&& same_entry_data(a.data, b.data)
}

impl AgentToolCall {
    pub fn same_as(&self, other: &AgentToolCall) -> (r: bool)
        ensures
            r == same_tool_call(*self, *other),
    {
        self.logical_id == other.logical_id && self.provider_call_id.same_as(
            &other.provider_call_id,
        ) && self.name == other.name && self.arguments_json == other.arguments_json
            && self.arguments.same_as(&other.arguments)
    }
}

impl AgentAssistantContent {
    pub fn same_as(&self, other: &AgentAssistantContent) -> (r: bool)
        ensures
            r == same_content(*self, *other),
    {
        match (self, other) {
            (AgentAssistantContent::Text { text: x }, AgentAssistantContent::Text { text: y }) => {
                *x == *y
            },
            (
                AgentAssistantContent::ToolCall { call: x },
                AgentAssistantContent::ToolCall { call: y },
            ) => x.same_as(y),
            _ => false,
        }
    }
}

fn same_usage(a: &Option<ModelUsage>, b: &Option<ModelUsage>) -> (r: bool)
    ensures
        r == (*a == *b),
{
    match (a, b) {
        (None, None) => true,
        (Some(x), Some(y)) => x.input_tokens == y.input_tokens && x.output_tokens
            == y.output_tokens && x.cache_read_input_tokens == y.cache_read_input_tokens
            && x.cache_write_input_tokens == y.cache_write_input_tokens,
        _ => false,
    }
}

impl DurableAssistantMessage {
    pub fn same_as(&self, other: &DurableAssistantMessage) -> (r: bool)
        ensures
            r == same_message(*self, *other),
    {
        if self.content.len() != other.content.len() {
            return false;
        }
        let mut i: usize = 0;
        while i < self.content.len()
            invariant
                0 <= i <= self.content@.len(),
                self.content@.len() == other.content@.len(),
                forall|k: int| 0 <= k < i ==> same_content(#[trigger] self.content@[k], other.content@[k]),
            decreases self.content.len() - i,
        {
            if !self.content[i].same_as(&other.content[i]) {
                return false;
            }
            i = i + 1;
        }
        self.stop_reason == other.stop_reason && same_usage(&self.usage, &other.usage)
            && crate::tools::identity::same_opt_text(
            &self.provider_request_id,
            &other.provider_request_id,
        )
    }
}

impl AgentEntryData {
    pub fn same_as(&self, other: &AgentEntryData) -> (r: bool)
        ensures
            r == same_entry_data(*self, *other),
    {
        match (self, other) {
            (AgentEntryData::UserInput { text: x }, AgentEntryData::UserInput { text: y }) => *x
                == *y,
            (
                AgentEntryData::AssistantMessage { attempt_id: x, message: m },
                AgentEntryData::AssistantMessage { attempt_id: y, message: n },
            ) => *x == *y && m.same_as(n),
            (
                AgentEntryData::ModelVisibleToolResult {
                    logical_call_id: c1,
                    attempt_id: a1,
                    tool_name: t1,
                    content: j1,
                    is_error: e1,
                },
                AgentEntryData::ModelVisibleToolResult {
                    logical_call_id: c2,
                    attempt_id: a2,
                    tool_name: t2,
                    content: j2,
                    is_error: e2,
                },
            ) => *c1 == *c2 && *a1 == *a2 && *t1 == *t2 && j1.same_as(j2) && *e1 == *e2,
            _ => false,
        }
    }
}

impl AgentEntry {
    pub fn same_as(&self, other: &AgentEntry) -> (r: bool)
        ensures
            r == same_entry(*self, *other),
    {
        self.id == other.id && self.run_id == other.run_id && self.ordinal == other.ordinal
            && self.created_at == other.created_at && self.data.same_as(&other.data)
    }
}

/// Every entry holds the same values as itself.
pub proof fn lemma_same_entry_reflexive(e: AgentEntry)
    ensures
        same_entry(e, e),
{
    match e.data {
        AgentEntryData::AssistantMessage { message, .. } => {
            let c = message.content@;
            assert forall|i: int| 0 <= i < c.len() implies same_content(#[trigger] c[i], c[i]) by {
                if let AgentAssistantContent::ToolCall { call } = c[i] {
                    lemma_same_json_reflexive(call.arguments);
                }
            }
        },
        AgentEntryData::ModelVisibleToolResult { content, .. } => {
            lemma_same_json_reflexive(content);
        },
        _ => {},
    }
}

} // verus!
