//! The state an Agent run recovers to, and the corruption a history can show.

use crate::agent::history::{AgentTerminalResult, ToolEffectResult};
use crate::idmap::IdMap;
use crate::ids::{AgentEntryId, AgentRunId, LogicalToolCallId, ModelAttemptId, ToolAttemptId};
use crate::provider::{ModelUsage, ToolCallId};
use crate::tools::disposition::{same_disposition, ToolPreparationDisposition, ToolPreparationStage};
use crate::tools::tool::ReplayPolicy;
use vstd::prelude::*;

verus! {

/// Where a recovered Agent run stands.
#[derive(Clone, Copy, Debug, PartialEq, Eq, Structural)]
pub enum AgentPhase {
    ReadyForModel,
    ModelInFlight,
    ToolsPending,
    ToolInFlight,
    /// The active attempt settled durably, but its model-visible result
    /// entry is not there yet: the history awaits repair.
    ToolResultPending,
    ReadyToCommitTurn,
    ReadyToCommitResult,
    InterventionPending,
    Terminal,
}

#[derive(Clone, Copy, Debug, PartialEq, Eq, Structural)]
pub enum ModelAttemptStatus {
    Started,
    Interrupted,
    Completed { assistant_entry_id: AgentEntryId },
}

#[derive(Clone, Copy, Debug, PartialEq, Eq, Structural)]
pub struct ModelAttemptState {
    pub id: ModelAttemptId,
    pub request_ordinal: u64,
    pub status: ModelAttemptStatus,
}

/// Where one tool attempt stands.
#[derive(Debug, PartialEq)]
pub enum ToolAttemptStatus {
    Started,
    Prepared,
    /// The effect crossed the ambiguity boundary. It may or may not have run.
    EffectInFlight,
    /// The effect settled durably but its model-visible entry, reserved at
    /// preparation, is not committed.
    EffectCompleted { result_entry_id: AgentEntryId, replay: ReplayPolicy, result: ToolEffectResult },
    Rejected { result_entry_id: AgentEntryId, failed_at: ToolPreparationStage },
    Denied { result_entry_id: AgentEntryId },
    Completed { result_entry_id: AgentEntryId },
    /// A safe attempt abandoned without a result; the logical call stays pending.
    Interrupted { reason: String },
    Intervention { reason: String },
}

impl Clone for ToolAttemptStatus {
    fn clone(&self) -> (r: Self)
        ensures
            r == *self,
    {
        match self {
            ToolAttemptStatus::Started => ToolAttemptStatus::Started,
            ToolAttemptStatus::Prepared => ToolAttemptStatus::Prepared,
            ToolAttemptStatus::EffectInFlight => ToolAttemptStatus::EffectInFlight,
            ToolAttemptStatus::EffectCompleted { result_entry_id, replay, result } => {
                ToolAttemptStatus::EffectCompleted {
                    result_entry_id: *result_entry_id,
                    replay: *replay,
                    result: result.clone(),
                }
            },
            ToolAttemptStatus::Rejected { result_entry_id, failed_at } => ToolAttemptStatus::Rejected {
                result_entry_id: *result_entry_id,
                failed_at: *failed_at,
            },
            ToolAttemptStatus::Denied { result_entry_id } => ToolAttemptStatus::Denied {
                result_entry_id: *result_entry_id,
            },
            ToolAttemptStatus::Completed { result_entry_id } => ToolAttemptStatus::Completed {
                result_entry_id: *result_entry_id,
            },
            ToolAttemptStatus::Interrupted { reason } => ToolAttemptStatus::Interrupted {
                reason: reason.clone(),
            },
            ToolAttemptStatus::Intervention { reason } => ToolAttemptStatus::Intervention {
                reason: reason.clone(),
            },
        }
    }
}

/// The durable preparation of one logical tool call. Every attempt of the
/// call must reproduce these values.
#[derive(Debug, PartialEq)]
pub struct ToolCallPreparation {
    pub assistant_entry_id: AgentEntryId,
    pub source_index: u32,
    pub provider_call_id: ToolCallId,
    pub requested_tool_name: String,
    pub result_entry_id: AgentEntryId,
    pub disposition: ToolPreparationDisposition,
}

impl Clone for ToolCallPreparation {
    fn clone(&self) -> (r: Self)
        ensures
            r == *self,
    {
        ToolCallPreparation {
            assistant_entry_id: self.assistant_entry_id,
            source_index: self.source_index,
            provider_call_id: self.provider_call_id.clone(),
            requested_tool_name: self.requested_tool_name.clone(),
            result_entry_id: self.result_entry_id,
            disposition: self.disposition.clone(),
        }
    }
}

/// Two preparations record the same values.
pub open spec fn same_preparation(a: ToolCallPreparation, b: ToolCallPreparation) -> bool {
    &&& a.assistant_entry_id == b.assistant_entry_id
    &&& a.source_index == b.source_index
    &&& a.provider_call_id@ == b.provider_call_id@
    &&& a.requested_tool_name@ == b.requested_tool_name@
    &&& a.result_entry_id == b.result_entry_id
    &&& same_disposition(a.disposition, b.disposition)
}

impl ToolCallPreparation {
    pub fn same_as(&self, other: &ToolCallPreparation) -> (r: bool)
        ensures
            r == same_preparation(*self, *other),
    {
        self.assistant_entry_id == other.assistant_entry_id && self.source_index
            == other.source_index && self.provider_call_id.same_as(&other.provider_call_id)
            && self.requested_tool_name == other.requested_tool_name && self.result_entry_id
            == other.result_entry_id && self.disposition.same_as(&other.disposition)
    }
}

#[derive(Debug, PartialEq)]
pub struct ToolAttemptState {
    pub id: ToolAttemptId,
    pub logical_call_id: LogicalToolCallId,
    pub status: ToolAttemptStatus,
}

impl Clone for ToolAttemptState {
    fn clone(&self) -> (r: Self)
        ensures
            r == *self,
    {
        ToolAttemptState {
            id: self.id,
            logical_call_id: self.logical_call_id,
            status: self.status.clone(),
        }
    }
}

/// The state an Agent run's history recovers to.
#[derive(Debug, PartialEq)]
pub struct AgentRecoveryState {
    pub run_id: AgentRunId,
    pub phase: AgentPhase,
    pub context_entry_ids: Vec<AgentEntryId>,
    pub next_model_request_ordinal: u64,
    pub next_turn_ordinal: u64,
    pub active_model_attempt: Option<ModelAttemptId>,
    pub last_model_attempt: Option<ModelAttemptId>,
    pub current_assistant_entry: Option<AgentEntryId>,
    pub pending_tool_calls: Vec<LogicalToolCallId>,
    pub completed_tool_results: IdMap<LogicalToolCallId, AgentEntryId>,
    pub active_tool_attempt: Option<ToolAttemptId>,
    pub model_attempts: IdMap<ModelAttemptId, ModelAttemptState>,
    pub tool_attempts: IdMap<LogicalToolCallId, Vec<ToolAttemptState>>,
    pub tool_preparations: IdMap<LogicalToolCallId, ToolCallPreparation>,
    pub usage: ModelUsage,
    pub model_request_count: u64,
    pub turn_count: u64,
    pub tool_attempt_count: u64,
    pub terminal_result: Option<AgentTerminalResult>,
}

/// The recovered state taken by view: vectors as sequences, maps as their
/// pairs in insertion order.
pub struct RecoveryView {
    pub run_id: AgentRunId,
    pub phase: AgentPhase,
    pub context_entry_ids: Seq<AgentEntryId>,
    pub next_model_request_ordinal: u64,
    pub next_turn_ordinal: u64,
    pub active_model_attempt: Option<ModelAttemptId>,
    pub last_model_attempt: Option<ModelAttemptId>,
    pub current_assistant_entry: Option<AgentEntryId>,
    pub pending_tool_calls: Seq<LogicalToolCallId>,
    pub completed_tool_results: Seq<(LogicalToolCallId, AgentEntryId)>,
    pub active_tool_attempt: Option<ToolAttemptId>,
    pub model_attempts: Seq<(ModelAttemptId, ModelAttemptState)>,
    pub tool_attempts: Seq<(LogicalToolCallId, Seq<ToolAttemptState>)>,
    pub tool_preparations: Seq<(LogicalToolCallId, ToolCallPreparation)>,
    pub usage: ModelUsage,
    pub model_request_count: u64,
    pub turn_count: u64,
    pub tool_attempt_count: u64,
    pub terminal_result: Option<AgentTerminalResult>,
}

/// The attempts of each call taken by view.
pub open spec fn attempts_view(s: Seq<(LogicalToolCallId, Vec<ToolAttemptState>)>) -> Seq<
    (LogicalToolCallId, Seq<ToolAttemptState>),
> {
    s.map_values(|p: (LogicalToolCallId, Vec<ToolAttemptState>)| (p.0, p.1@))
}

impl View for AgentRecoveryState {
    type V = RecoveryView;

    open spec fn view(&self) -> RecoveryView {
        RecoveryView {
            run_id: self.run_id,
            phase: self.phase,
            context_entry_ids: self.context_entry_ids@,
            next_model_request_ordinal: self.next_model_request_ordinal,
            next_turn_ordinal: self.next_turn_ordinal,
            active_model_attempt: self.active_model_attempt,
            last_model_attempt: self.last_model_attempt,
            current_assistant_entry: self.current_assistant_entry,
            pending_tool_calls: self.pending_tool_calls@,
            completed_tool_results: self.completed_tool_results@,
            active_tool_attempt: self.active_tool_attempt,
            model_attempts: self.model_attempts@,
            tool_attempts: attempts_view(self.tool_attempts@),
            tool_preparations: self.tool_preparations@,
            usage: self.usage,
            model_request_count: self.model_request_count,
            turn_count: self.turn_count,
            tool_attempt_count: self.tool_attempt_count,
            terminal_result: self.terminal_result,
        }
    }
}

/// Why a durable Agent history cannot be trusted.
#[derive(Debug, PartialEq, Eq)]
pub enum CorruptionError {
    EntryOrdinal { expected: u64, actual: u64 },
    RecordSequence { expected: u64, actual: u64 },
    RunMismatch { expected: AgentRunId, actual: AgentRunId },
    DuplicateEntryId(AgentEntryId),
    DuplicateModelAttempt(ModelAttemptId),
    DuplicateToolAttempt(ToolAttemptId),
    UnknownToolAttempt(ToolAttemptId),
    DuplicateLogicalToolCall(LogicalToolCallId),
    DuplicateLogicalToolResult(LogicalToolCallId),
    UserInputAfterGeneratedContext,
    InvalidRecord { record: &'static str, phase: AgentPhase },
    UnknownEntry(AgentEntryId),
    UnknownLogicalToolCall(LogicalToolCallId),
    AttemptMismatch { expected: String, actual: String },
    ModelRequestOrdinal { expected: u64, actual: u64 },
    TurnOrdinal { expected: u64, actual: u64 },
    AssistantAttemptMismatch { entry_id: AgentEntryId, attempt_id: ModelAttemptId },
    ContextOrder(AgentEntryId),
    ToolResultMismatch {
        entry_id: AgentEntryId,
        attempt_id: ToolAttemptId,
        logical_call_id: LogicalToolCallId,
    },
    ToolSourceOrder { expected: LogicalToolCallId, actual: LogicalToolCallId },
    TurnResultOrder,
    TerminalAssistantMismatch(AgentEntryId),
    RecordAfterTerminal(&'static str),
    OrphanGeneratedEntry(AgentEntryId),
    ToolPreparationConflict(LogicalToolCallId),
    DuplicateToolPreparation(ToolAttemptId),
    EffectStartWithoutExecutable(ToolAttemptId),
    EffectCompletionWithoutStart(ToolAttemptId),
    ReservedResultMismatch { attempt_id: ToolAttemptId, expected: AgentEntryId, actual: AgentEntryId },
    WrongNoEffectRecord(ToolAttemptId),
}

/// A corruption taken by view: the attempt texts of a mismatch as sequences.
pub enum CorruptionView {
    AttemptMismatch { expected: Seq<char>, actual: Seq<char> },
    Other(CorruptionError),
}

impl View for CorruptionError {
    type V = CorruptionView;

    open spec fn view(&self) -> CorruptionView {
        match self {
            CorruptionError::AttemptMismatch { expected, actual } => CorruptionView::AttemptMismatch {
                expected: expected@,
                actual: actual@,
            },
            _ => CorruptionView::Other(*self),
        }
    }
}

} // verus!
