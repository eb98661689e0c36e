//! The grammar of a durable Agent history, stated step by step: which entry
//! and record sequences are valid, and the state they recover to.

use crate::agent::history::{
    logical_calls_of, AgentEntry, AgentEntryData, AgentRecord, AgentRecordData,
    AgentTerminalResult, ToolEffectResult,
};
use crate::agent::state::{
    same_preparation, AgentPhase, CorruptionError, CorruptionView, ModelAttemptState,
    ModelAttemptStatus, RecoveryView, ToolAttemptState, ToolAttemptStatus, ToolCallPreparation,
};
use crate::idmap::{
    assoc_get, assoc_index, assoc_insert, lemma_assoc_get_insert, lemma_assoc_index_from_range,
};
use crate::json::{lemma_same_json_reflexive, lemma_same_json_symmetric, lemma_same_json_transitive};
use crate::tools::tool::EffectDescriptor;
use crate::ids::{
    spec_uuid_text, AgentEntryId, AgentRunId, LogicalToolCallId, ModelAttemptId, ToolAttemptId,
};
use crate::provider::{saturating_sum, ModelUsage, ToolCallId};
use crate::tools::disposition::{ToolPreparationDisposition, ToolPreparationStage};
use vstd::prelude::*;

verus! {

/// A corruption as the reducer reports it.
pub open spec fn corrupt<T>(e: CorruptionError) -> Result<T, CorruptionView> {
    Err(CorruptionView::Other(e))
}

/// What the scan of the entries collects.
pub struct EntryScan {
    /// Each entry id with the entry's position.
    pub by_id: Seq<(AgentEntryId, usize)>,
    /// Each logical tool call with the assistant entry that defines it.
    pub definitions: Seq<(LogicalToolCallId, AgentEntryId)>,
    /// Each logical tool call with its model-visible result entry.
    pub results: Seq<(LogicalToolCallId, AgentEntryId)>,
    /// Whether only user input has been seen so far.
    pub user_prefix: bool,
    /// The leading user inputs, which start the model context.
    pub context: Seq<AgentEntryId>,
}

pub open spec fn empty_scan() -> EntryScan {
    EntryScan {
        by_id: Seq::empty(),
        definitions: Seq::empty(),
        results: Seq::empty(),
        user_prefix: true,
        context: Seq::empty(),
    }
}

/// The calls of one assistant entry added to the definitions, from call `i` on.
pub open spec fn define_calls(
    defs: Seq<(LogicalToolCallId, AgentEntryId)>,
    calls: Seq<LogicalToolCallId>,
    entry_id: AgentEntryId,
    i: int,
) -> Result<Seq<(LogicalToolCallId, AgentEntryId)>, CorruptionView>
    decreases calls.len() - i,
{
    if i < 0 || i >= calls.len() {
        Ok(defs)
    } else if assoc_index(defs, calls[i]) is Some {
        corrupt(CorruptionError::DuplicateLogicalToolCall(calls[i]))
    } else {
        define_calls(defs.push((calls[i], entry_id)), calls, entry_id, i + 1)
    }
}

/// Entry `index` applied to the scan.
pub open spec fn scan_entry(sc: EntryScan, run_id: AgentRunId, e: AgentEntry, index: int) -> Result<
    EntryScan,
    CorruptionView,
> {
    if e.ordinal != index + 1 {
        corrupt(CorruptionError::EntryOrdinal { expected: (index + 1) as u64, actual: e.ordinal })
    } else if e.run_id != run_id {
        corrupt(CorruptionError::RunMismatch { expected: run_id, actual: e.run_id })
    } else if assoc_index(sc.by_id, e.id) is Some {
        corrupt(CorruptionError::DuplicateEntryId(e.id))
    } else {
        let sc1 = EntryScan { by_id: sc.by_id.push((e.id, index as usize)), ..sc };
        match e.data {
            AgentEntryData::UserInput { .. } => if !sc.user_prefix {
                corrupt(CorruptionError::UserInputAfterGeneratedContext)
            } else {
                Ok(EntryScan { context: sc.context.push(e.id), ..sc1 })
            },
            AgentEntryData::AssistantMessage { message, .. } => match define_calls(
                sc.definitions,
                logical_calls_of(message.content@),
                e.id,
                0,
            ) {
                Ok(defs) => Ok(EntryScan { definitions: defs, user_prefix: false, ..sc1 }),
                Err(err) => Err(err),
            },
            AgentEntryData::ModelVisibleToolResult { logical_call_id, .. } => if assoc_index(
                sc.results,
                logical_call_id,
            ) is Some {
                corrupt(CorruptionError::DuplicateLogicalToolResult(logical_call_id))
            } else {
                Ok(
                    EntryScan {
                        results: sc.results.push((logical_call_id, e.id)),
                        user_prefix: false,
                        ..sc1
                    },
                )
            },
        }
    }
}

/// The entries from index `i` on applied to the scan.
pub open spec fn scan_entries_from(
    sc: EntryScan,
    run_id: AgentRunId,
    entries: Seq<AgentEntry>,
    i: int,
) -> Result<EntryScan, CorruptionView>
    decreases entries.len() - i,
{
    if i < 0 || i >= entries.len() {
        Ok(sc)
    } else {
        match scan_entry(sc, run_id, entries[i], i) {
            Ok(next) => scan_entries_from(next, run_id, entries, i + 1),
            Err(err) => Err(err),
        }
    }
}

/// What the reducer carries across records besides the state.
pub struct Fold {
    pub state: RecoveryView,
    /// Generated entries that an operational record finalized.
    pub finalized: Seq<AgentEntryId>,
    /// Result entries committed since the current assistant message.
    pub turn_results: Seq<AgentEntryId>,
    /// Every tool attempt id started so far.
    pub seen: Seq<ToolAttemptId>,
}

/// The state before any record.
pub open spec fn initial_state(run_id: AgentRunId, context: Seq<AgentEntryId>) -> RecoveryView {
    RecoveryView {
        run_id,
        phase: AgentPhase::ReadyForModel,
        context_entry_ids: context,
        next_model_request_ordinal: 1,
        next_turn_ordinal: 1,
        active_model_attempt: None,
        last_model_attempt: None,
        current_assistant_entry: None,
        pending_tool_calls: Seq::empty(),
        completed_tool_results: Seq::empty(),
        active_tool_attempt: None,
        model_attempts: Seq::empty(),
        tool_attempts: Seq::empty(),
        tool_preparations: Seq::empty(),
        usage: ModelUsage {
            input_tokens: 0,
            output_tokens: 0,
            cache_read_input_tokens: 0,
            cache_write_input_tokens: 0,
        },
        model_request_count: 0,
        turn_count: 0,
        tool_attempt_count: 0,
        terminal_result: None,
    }
}

pub open spec fn initial_fold(run_id: AgentRunId, context: Seq<AgentEntryId>) -> Fold {
    Fold {
        state: initial_state(run_id, context),
        finalized: context,
        turn_results: Seq::empty(),
        seen: Seq::empty(),
    }
}

/// Counters added without overflow, saturating.
pub open spec fn add_usage(a: ModelUsage, b: ModelUsage) -> ModelUsage {
    ModelUsage {
        input_tokens: saturating_sum(a.input_tokens, b.input_tokens),
        output_tokens: saturating_sum(a.output_tokens, b.output_tokens),
        cache_read_input_tokens: saturating_sum(a.cache_read_input_tokens, b.cache_read_input_tokens),
        cache_write_input_tokens: saturating_sum(
            a.cache_write_input_tokens,
            b.cache_write_input_tokens,
        ),
    }
}

/// The record is allowed in phase `expected` only.
pub open spec fn phase_check(st: RecoveryView, expected: AgentPhase, kind: &'static str) -> Option<
    CorruptionView,
> {
    if st.phase == expected {
        None
    } else {
        Some(CorruptionView::Other(CorruptionError::InvalidRecord { record: kind, phase: st.phase }))
    }
}

/// The record must name the active attempt (given by its bits).
pub open spec fn attempt_check(active: Option<u128>, actual: u128) -> Option<CorruptionView> {
    match active {
        Some(expected) => if expected == actual {
            None
        } else {
            Some(
                CorruptionView::AttemptMismatch {
                    expected: spec_uuid_text(expected),
                    actual: spec_uuid_text(actual),
                },
            )
        },
        None => Some(
            CorruptionView::AttemptMismatch { expected: "none"@, actual: spec_uuid_text(actual) },
        ),
    }
}

pub open spec fn model_bits(a: Option<ModelAttemptId>) -> Option<u128> {
    match a {
        Some(x) => Some(x.0),
        None => None,
    }
}

pub open spec fn tool_bits(a: Option<ToolAttemptId>) -> Option<u128> {
    match a {
        Some(x) => Some(x.0),
        None => None,
    }
}

/// The first position of attempt `a` in a list of attempts, from index `j` on.
pub open spec fn attempt_pos(s: Seq<ToolAttemptState>, a: ToolAttemptId, j: int) -> Option<int>
    decreases s.len() - j,
{
    if j < 0 || j >= s.len() {
        None
    } else if s[j].id == a {
        Some(j)
    } else {
        attempt_pos(s, a, j + 1)
    }
}

/// The first call (by index) whose attempts include `a`, from index `i` on.
pub open spec fn call_of_attempt(
    ta: Seq<(LogicalToolCallId, Seq<ToolAttemptState>)>,
    a: ToolAttemptId,
    i: int,
) -> Option<int>
    decreases ta.len() - i,
{
    if i < 0 || i >= ta.len() {
        None
    } else if attempt_pos(ta[i].1, a, 0) is Some {
        Some(i)
    } else {
        call_of_attempt(ta, a, i + 1)
    }
}

/// The attempt `a`'s status replaced.
pub open spec fn set_attempt_status(
    ta: Seq<(LogicalToolCallId, Seq<ToolAttemptState>)>,
    a: ToolAttemptId,
    status: ToolAttemptStatus,
) -> Seq<(LogicalToolCallId, Seq<ToolAttemptState>)> {
    match call_of_attempt(ta, a, 0) {
        Some(i) => {
            let j = attempt_pos(ta[i].1, a, 0)->0;
            ta.update(i, (ta[i].0, ta[i].1.update(j, ToolAttemptState { status, ..ta[i].1[j] })))
        },
        None => ta,
    }
}

/// The current status of attempt `a`.
pub open spec fn attempt_status(
    ta: Seq<(LogicalToolCallId, Seq<ToolAttemptState>)>,
    a: ToolAttemptId,
) -> Option<ToolAttemptStatus> {
    match call_of_attempt(ta, a, 0) {
        Some(i) => Some(ta[i].1[attempt_pos(ta[i].1, a, 0)->0].status),
        None => None,
    }
}

/// The logical call that attempt `a` belongs to.
pub open spec fn attempt_call(
    ta: Seq<(LogicalToolCallId, Seq<ToolAttemptState>)>,
    a: ToolAttemptId,
) -> Option<LogicalToolCallId> {
    match call_of_attempt(ta, a, 0) {
        Some(i) => Some(ta[i].0),
        None => None,
    }
}

pub open spec fn set_model_status(
    ma: Seq<(ModelAttemptId, ModelAttemptState)>,
    a: ModelAttemptId,
    status: ModelAttemptStatus,
) -> Seq<(ModelAttemptId, ModelAttemptState)> {
    match assoc_index(ma, a) {
        Some(i) => ma.update(i, (a, ModelAttemptState { status, ..ma[i].1 })),
        None => ma,
    }
}

/// The entry at the position recorded for `id`.
pub open spec fn entry_by_id(sc: EntryScan, entries: Seq<AgentEntry>, id: AgentEntryId) -> Option<
    AgentEntry,
> {
    match assoc_get(sc.by_id, id) {
        Some(i) => Some(entries[i as int]),
        None => None,
    }
}

/// How one tool attempt reaches its model-visible result.
#[derive(Clone, Copy, Debug, PartialEq, Eq, Structural)]
pub enum Settlement {
    Completed,
    Denied,
    Rejected(ToolPreparationStage),
}

/// Whether a settlement fits the stage at which preparation failed.
pub open spec fn settlement_fits(s: Settlement, failed_at: Option<ToolPreparationStage>) -> bool {
    match s {
        Settlement::Completed => failed_at is None,
        Settlement::Denied => failed_at == Some(ToolPreparationStage::Policy),
        Settlement::Rejected(stage) => stage != ToolPreparationStage::Policy && failed_at == Some(
            stage,
        ),
    }
}

pub open spec fn failed_stage(d: ToolPreparationDisposition) -> Option<ToolPreparationStage> {
    match d {
        ToolPreparationDisposition::Executable { .. } => None,
        ToolPreparationDisposition::NoEffect { failed_at, .. } => Some(failed_at),
    }
}

pub open spec fn settled_status(s: Settlement, result_entry_id: AgentEntryId) -> ToolAttemptStatus {
    match s {
        Settlement::Completed => ToolAttemptStatus::Completed { result_entry_id },
        Settlement::Denied => ToolAttemptStatus::Denied { result_entry_id },
        Settlement::Rejected(failed_at) => ToolAttemptStatus::Rejected { result_entry_id, failed_at },
    }
}

/// Whether a settlement fits the call's preparation. Without one, the stage
/// still decides: a policy failure settles as `Denied`, never `Rejected`.
pub open spec fn settlement_allowed(s: Settlement, prep: Option<ToolCallPreparation>) -> bool {
    match prep {
        Some(p) => settlement_fits(s, failed_stage(p.disposition)),
        None => s != Settlement::Rejected(ToolPreparationStage::Policy),
    }
}

/// The active attempt's effect completed and waits for its model-visible
/// result.
pub open spec fn effect_awaits_result(st: RecoveryView) -> bool {
    &&& st.phase == AgentPhase::ToolResultPending
    &&& st.active_tool_attempt matches Some(x)
    &&& attempt_status(st.tool_attempts, x) matches Some(ToolAttemptStatus::EffectCompleted { .. })
}

/// A settlement is allowed while the attempt is in flight, or once its
/// effect completed.
pub open spec fn settle_phase_check(st: RecoveryView, kind: &'static str) -> Option<CorruptionView> {
    if st.phase == AgentPhase::ToolInFlight || effect_awaits_result(st) {
        None
    } else {
        Some(CorruptionView::Other(CorruptionError::InvalidRecord { record: kind, phase: st.phase }))
    }
}

/// The pending calls other than `call`, in order.
pub open spec fn other_calls(p: Seq<LogicalToolCallId>, call: LogicalToolCallId) -> Seq<
    LogicalToolCallId,
> {
    p.filter(|id: LogicalToolCallId| id != call)
}

/// The first pending call leaves the list.
pub open spec fn drop_first_pending(p: Seq<LogicalToolCallId>) -> Seq<LogicalToolCallId> {
    if p.len() > 0 {
        p.drop_first()
    } else {
        p
    }
}

/// A tool attempt settling with its model-visible result entry. When that
/// entry is not in the history, the attempt settles all the same and the run
/// waits for the result (`ToolResultPending`).
pub open spec fn finish_step(
    f: Fold,
    sc: EntryScan,
    entries: Seq<AgentEntry>,
    a: ToolAttemptId,
    result_entry_id: AgentEntryId,
    s: Settlement,
    kind: &'static str,
) -> Result<Fold, CorruptionView> {
    let st = f.state;
    if settle_phase_check(st, kind) is Some {
        Err(settle_phase_check(st, kind)->0)
    } else if attempt_check(tool_bits(st.active_tool_attempt), a.0) is Some {
        Err(attempt_check(tool_bits(st.active_tool_attempt), a.0)->0)
    } else if attempt_call(st.tool_attempts, a) is None {
        corrupt(CorruptionError::UnknownToolAttempt(a))
    } else {
        let call = attempt_call(st.tool_attempts, a)->0;
        let prep = assoc_get(st.tool_preparations, call);
        if prep is Some && prep->0.result_entry_id != result_entry_id {
            corrupt(
                CorruptionError::ReservedResultMismatch {
                    attempt_id: a,
                    expected: prep->0.result_entry_id,
                    actual: result_entry_id,
                },
            )
        } else if !settlement_allowed(s, prep) {
            corrupt(CorruptionError::WrongNoEffectRecord(a))
        } else if entry_by_id(sc, entries, result_entry_id) is None {
            Ok(
                Fold {
                    state: RecoveryView {
                        tool_attempts: set_attempt_status(
                            st.tool_attempts,
                            a,
                            settled_status(s, result_entry_id),
                        ),
                        phase: AgentPhase::ToolResultPending,
                        ..st
                    },
                    ..f
                },
            )
        } else {
            let entry = entry_by_id(sc, entries, result_entry_id)->0;
            let mismatch = CorruptionError::ToolResultMismatch {
                entry_id: result_entry_id,
                attempt_id: a,
                logical_call_id: call,
            };
            match entry.data {
                AgentEntryData::ModelVisibleToolResult {
                    logical_call_id: entry_call,
                    attempt_id: entry_attempt,
                    ..
                } => if entry_call != call || entry_attempt != a {
                    corrupt(mismatch)
                } else if assoc_index(st.completed_tool_results, call) is Some {
                    corrupt(CorruptionError::DuplicateLogicalToolResult(call))
                } else if entry.ordinal != st.context_entry_ids.len() + 1 {
                    corrupt(CorruptionError::ContextOrder(entry.id))
                } else {
                    let pending = drop_first_pending(st.pending_tool_calls);
                    Ok(
                        Fold {
                            state: RecoveryView {
                                context_entry_ids: st.context_entry_ids.push(entry.id),
                                completed_tool_results: assoc_insert(
                                    st.completed_tool_results,
                                    call,
                                    result_entry_id,
                                ),
                                tool_attempts: set_attempt_status(
                                    st.tool_attempts,
                                    a,
                                    settled_status(s, result_entry_id),
                                ),
                                active_tool_attempt: None,
                                pending_tool_calls: pending,
                                phase: if pending.len() == 0 {
                                    AgentPhase::ReadyToCommitTurn
                                } else {
                                    AgentPhase::ToolsPending
                                },
                                ..st
                            },
                            finalized: f.finalized.push(result_entry_id),
                            turn_results: f.turn_results.push(result_entry_id),
                            ..f
                        },
                    )
                },
                _ => corrupt(mismatch),
            }
        }
    }
}

/// A model attempt starts.
pub open spec fn model_started_step(
    f: Fold,
    attempt_id: ModelAttemptId,
    request_ordinal: u64,
    kind: &'static str,
) -> Result<Fold, CorruptionView> {
    let st = f.state;
    if phase_check(st, AgentPhase::ReadyForModel, kind) is Some {
        Err(phase_check(st, AgentPhase::ReadyForModel, kind)->0)
    } else if assoc_index(st.model_attempts, attempt_id) is Some {
        corrupt(CorruptionError::DuplicateModelAttempt(attempt_id))
    } else if request_ordinal != st.next_model_request_ordinal {
        corrupt(
            CorruptionError::ModelRequestOrdinal {
                expected: st.next_model_request_ordinal,
                actual: request_ordinal,
            },
        )
    } else {
        Ok(
            Fold {
                state: RecoveryView {
                    model_attempts: assoc_insert(
                        st.model_attempts,
                        attempt_id,
                        ModelAttemptState {
                            id: attempt_id,
                            request_ordinal,
                            status: ModelAttemptStatus::Started,
                        },
                    ),
                    active_model_attempt: Some(attempt_id),
                    last_model_attempt: Some(attempt_id),
                    next_model_request_ordinal: (st.next_model_request_ordinal
                        + 1) as u64,
                    model_request_count: (st.model_request_count + 1) as u64,
                    phase: AgentPhase::ModelInFlight,
                    ..st
                },
                ..f
            },
        )
    }
}

/// The active model attempt ends without a response.
pub open spec fn model_interrupted_step(f: Fold, attempt_id: ModelAttemptId, kind: &'static str) -> Result<Fold, CorruptionView> {
    let st = f.state;
    if phase_check(st, AgentPhase::ModelInFlight, kind) is Some {
        Err(phase_check(st, AgentPhase::ModelInFlight, kind)->0)
    } else if attempt_check(model_bits(st.active_model_attempt), attempt_id.0) is Some {
        Err(attempt_check(model_bits(st.active_model_attempt), attempt_id.0)->0)
    } else {
        Ok(
            Fold {
                state: RecoveryView {
                    model_attempts: set_model_status(
                        st.model_attempts,
                        attempt_id,
                        ModelAttemptStatus::Interrupted,
                    ),
                    active_model_attempt: None,
                    phase: AgentPhase::ReadyForModel,
                    ..st
                },
                ..f
            },
        )
    }
}

/// The active model attempt completes with its assistant entry.
pub open spec fn model_completed_step(
    f: Fold,
    sc: EntryScan,
    entries: Seq<AgentEntry>,
    attempt_id: ModelAttemptId,
    assistant_entry_id: AgentEntryId,
    kind: &'static str,
) -> Result<Fold, CorruptionView> {
    let st = f.state;
    if phase_check(st, AgentPhase::ModelInFlight, kind) is Some {
        Err(phase_check(st, AgentPhase::ModelInFlight, kind)->0)
    } else if attempt_check(model_bits(st.active_model_attempt), attempt_id.0) is Some {
        Err(attempt_check(model_bits(st.active_model_attempt), attempt_id.0)->0)
    } else if entry_by_id(sc, entries, assistant_entry_id) is None {
        corrupt(CorruptionError::UnknownEntry(assistant_entry_id))
    } else {
        let entry = entry_by_id(sc, entries, assistant_entry_id)->0;
        let mismatch = CorruptionError::AssistantAttemptMismatch {
            entry_id: assistant_entry_id,
            attempt_id,
        };
        match entry.data {
            AgentEntryData::AssistantMessage { attempt_id: entry_attempt, message } => {
                if entry_attempt != attempt_id {
                    corrupt(mismatch)
                } else if entry.ordinal != st.context_entry_ids.len() + 1 {
                    corrupt(CorruptionError::ContextOrder(entry.id))
                } else {
                    let pending = logical_calls_of(message.content@);
                    Ok(
                        Fold {
                            state: RecoveryView {
                                context_entry_ids: st.context_entry_ids.push(entry.id),
                                model_attempts: set_model_status(
                                    st.model_attempts,
                                    attempt_id,
                                    ModelAttemptStatus::Completed { assistant_entry_id },
                                ),
                                active_model_attempt: None,
                                current_assistant_entry: Some(assistant_entry_id),
                                usage: match message.usage {
                                    Some(u) => add_usage(st.usage, u),
                                    None => st.usage,
                                },
                                pending_tool_calls: pending,
                                phase: if pending.len() == 0 {
                                    AgentPhase::ReadyToCommitResult
                                } else {
                                    AgentPhase::ToolsPending
                                },
                                ..st
                            },
                            finalized: f.finalized.push(entry.id),
                            turn_results: Seq::empty(),
                            ..f
                        },
                    )
                }
            },
            _ => corrupt(mismatch),
        }
    }
}

/// An attempt of the next pending tool call starts.
pub open spec fn tool_started_step(
    f: Fold,
    sc: EntryScan,
    attempt_id: ToolAttemptId,
    logical_call_id: LogicalToolCallId,
    kind: &'static str,
) -> Result<Fold, CorruptionView> {
    let st = f.state;
    if phase_check(st, AgentPhase::ToolsPending, kind) is Some {
        Err(phase_check(st, AgentPhase::ToolsPending, kind)->0)
    } else if f.seen.contains(attempt_id) {
        corrupt(CorruptionError::DuplicateToolAttempt(attempt_id))
    } else if st.pending_tool_calls.len() == 0 {
        corrupt(CorruptionError::UnknownLogicalToolCall(logical_call_id))
    } else if st.pending_tool_calls[0] != logical_call_id {
        corrupt(
            CorruptionError::ToolSourceOrder {
                expected: st.pending_tool_calls[0],
                actual: logical_call_id,
            },
        )
    } else if assoc_get(sc.definitions, logical_call_id) is None
        || Some(assoc_get(sc.definitions, logical_call_id)->0)
        != st.current_assistant_entry {
        corrupt(CorruptionError::UnknownLogicalToolCall(logical_call_id))
    } else {
        let attempt = ToolAttemptState {
            id: attempt_id,
            logical_call_id,
            status: ToolAttemptStatus::Started,
        };
        let existing = match assoc_get(st.tool_attempts, logical_call_id) {
            Some(list) => list,
            None => Seq::empty(),
        };
        Ok(
            Fold {
                state: RecoveryView {
                    tool_attempts: assoc_insert(
                        st.tool_attempts,
                        logical_call_id,
                        existing.push(attempt),
                    ),
                    active_tool_attempt: Some(attempt_id),
                    tool_attempt_count: (st.tool_attempt_count + 1) as u64,
                    phase: AgentPhase::ToolInFlight,
                    ..st
                },
                seen: f.seen.push(attempt_id),
                ..f
            },
        )
    }
}

/// The active tool attempt records its preparation.
pub open spec fn tool_prepared_step(
    f: Fold,
    attempt_id: ToolAttemptId,
    logical_call_id: LogicalToolCallId,
    assistant_entry_id: AgentEntryId,
    source_index: u32,
    provider_call_id: ToolCallId,
    requested_tool_name: String,
    result_entry_id: AgentEntryId,
    disposition: ToolPreparationDisposition,
    kind: &'static str,
) -> Result<Fold, CorruptionView> {
    let st = f.state;
    if phase_check(st, AgentPhase::ToolInFlight, kind) is Some {
        Err(phase_check(st, AgentPhase::ToolInFlight, kind)->0)
    } else if attempt_check(tool_bits(st.active_tool_attempt), attempt_id.0) is Some {
        Err(attempt_check(tool_bits(st.active_tool_attempt), attempt_id.0)->0)
    } else if attempt_call(st.tool_attempts, attempt_id) is None {
        corrupt(CorruptionError::UnknownToolAttempt(attempt_id))
    } else if attempt_call(st.tool_attempts, attempt_id)->0 != logical_call_id || Some(
        assistant_entry_id,
    ) != st.current_assistant_entry {
        corrupt(CorruptionError::UnknownLogicalToolCall(logical_call_id))
    } else if !(attempt_status(st.tool_attempts, attempt_id)->0 is Started) {
        corrupt(CorruptionError::DuplicateToolPreparation(attempt_id))
    } else {
        let prep = ToolCallPreparation {
            assistant_entry_id,
            source_index,
            provider_call_id,
            requested_tool_name,
            result_entry_id,
            disposition,
        };
        let existing = assoc_get(st.tool_preparations, logical_call_id);
        if existing is Some && !same_preparation(existing->0, prep) {
            corrupt(CorruptionError::ToolPreparationConflict(logical_call_id))
        } else {
            Ok(
                Fold {
                    state: RecoveryView {
                        tool_preparations: assoc_insert(
                            st.tool_preparations,
                            logical_call_id,
                            prep,
                        ),
                        tool_attempts: set_attempt_status(
                            st.tool_attempts,
                            attempt_id,
                            ToolAttemptStatus::Prepared,
                        ),
                        ..st
                    },
                    ..f
                },
            )
        }
    }
}

/// The active tool attempt crosses the effect boundary.
pub open spec fn effect_started_step(f: Fold, attempt_id: ToolAttemptId, kind: &'static str) -> Result<Fold, CorruptionView> {
    let st = f.state;
    if phase_check(st, AgentPhase::ToolInFlight, kind) is Some {
        Err(phase_check(st, AgentPhase::ToolInFlight, kind)->0)
    } else if attempt_check(tool_bits(st.active_tool_attempt), attempt_id.0) is Some {
        Err(attempt_check(tool_bits(st.active_tool_attempt), attempt_id.0)->0)
    } else if attempt_call(st.tool_attempts, attempt_id) is None {
        corrupt(CorruptionError::UnknownToolAttempt(attempt_id))
    } else {
        let call = attempt_call(st.tool_attempts, attempt_id)->0;
        let prep = assoc_get(st.tool_preparations, call);
        let executable = prep is Some && prep->0.disposition is Executable;
        if !executable || !(attempt_status(st.tool_attempts, attempt_id)->0 is Prepared) {
            corrupt(CorruptionError::EffectStartWithoutExecutable(attempt_id))
        } else {
            Ok(
                Fold {
                    state: RecoveryView {
                        tool_attempts: set_attempt_status(
                            st.tool_attempts,
                            attempt_id,
                            ToolAttemptStatus::EffectInFlight,
                        ),
                        ..st
                    },
                    ..f
                },
            )
        }
    }
}

/// The effect of the active tool attempt settles; its result entry, reserved
/// at preparation, is awaited.
pub open spec fn effect_completed_step(
    f: Fold,
    attempt_id: ToolAttemptId,
    result: ToolEffectResult,
    kind: &'static str,
) -> Result<Fold, CorruptionView> {
    let st = f.state;
    if phase_check(st, AgentPhase::ToolInFlight, kind) is Some {
        Err(phase_check(st, AgentPhase::ToolInFlight, kind)->0)
    } else if attempt_check(tool_bits(st.active_tool_attempt), attempt_id.0) is Some {
        Err(attempt_check(tool_bits(st.active_tool_attempt), attempt_id.0)->0)
    } else if attempt_status(st.tool_attempts, attempt_id) is None {
        corrupt(CorruptionError::UnknownToolAttempt(attempt_id))
    } else if !(attempt_status(st.tool_attempts, attempt_id)->0 is EffectInFlight) {
        corrupt(CorruptionError::EffectCompletionWithoutStart(attempt_id))
    } else {
        match assoc_get(st.tool_preparations, attempt_call(st.tool_attempts, attempt_id)->0) {
            Some(prep) => match prep.disposition {
                ToolPreparationDisposition::Executable { replay, .. } => Ok(
                    Fold {
                        state: RecoveryView {
                            tool_attempts: set_attempt_status(
                                st.tool_attempts,
                                attempt_id,
                                ToolAttemptStatus::EffectCompleted {
                                    result_entry_id: prep.result_entry_id,
                                    replay,
                                    result,
                                },
                            ),
                            phase: AgentPhase::ToolResultPending,
                            ..st
                        },
                        ..f
                    },
                ),
                _ => corrupt(CorruptionError::EffectCompletionWithoutStart(attempt_id)),
            },
            None => corrupt(CorruptionError::EffectCompletionWithoutStart(attempt_id)),
        }
    }
}

/// The active tool attempt is abandoned; its call stays pending.
pub open spec fn tool_interrupted_step(
    f: Fold,
    attempt_id: ToolAttemptId,
    reason: String,
    kind: &'static str,
) -> Result<Fold, CorruptionView> {
    let st = f.state;
    if phase_check(st, AgentPhase::ToolInFlight, kind) is Some {
        Err(phase_check(st, AgentPhase::ToolInFlight, kind)->0)
    } else if attempt_check(tool_bits(st.active_tool_attempt), attempt_id.0) is Some {
        Err(attempt_check(tool_bits(st.active_tool_attempt), attempt_id.0)->0)
    } else if attempt_status(st.tool_attempts, attempt_id) is None {
        corrupt(CorruptionError::UnknownToolAttempt(attempt_id))
    } else {
        Ok(
            Fold {
                state: RecoveryView {
                    tool_attempts: set_attempt_status(
                        st.tool_attempts,
                        attempt_id,
                        ToolAttemptStatus::Interrupted { reason },
                    ),
                    active_tool_attempt: None,
                    phase: AgentPhase::ToolsPending,
                    ..st
                },
                ..f
            },
        )
    }
}

/// The active tool attempt needs an operator; its call leaves the pending list.
pub open spec fn intervention_step(
    f: Fold,
    attempt_id: ToolAttemptId,
    reason: String,
    kind: &'static str,
) -> Result<Fold, CorruptionView> {
    let st = f.state;
    if phase_check(st, AgentPhase::ToolInFlight, kind) is Some {
        Err(phase_check(st, AgentPhase::ToolInFlight, kind)->0)
    } else if attempt_check(tool_bits(st.active_tool_attempt), attempt_id.0) is Some {
        Err(attempt_check(tool_bits(st.active_tool_attempt), attempt_id.0)->0)
    } else if attempt_call(st.tool_attempts, attempt_id) is None {
        corrupt(CorruptionError::UnknownToolAttempt(attempt_id))
    } else {
        let call = attempt_call(st.tool_attempts, attempt_id)->0;
        Ok(
            Fold {
                state: RecoveryView {
                    tool_attempts: set_attempt_status(
                        st.tool_attempts,
                        attempt_id,
                        ToolAttemptStatus::Intervention { reason },
                    ),
                    active_tool_attempt: None,
                    pending_tool_calls: other_calls(st.pending_tool_calls, call),
                    phase: AgentPhase::InterventionPending,
                    ..st
                },
                ..f
            },
        )
    }
}

/// The turn commits with its result entries in source order.
pub open spec fn turn_committed_step(
    f: Fold,
    turn_ordinal: u64,
    assistant_entry_id: AgentEntryId,
    tool_result_entry_ids: Seq<AgentEntryId>,
    kind: &'static str,
) -> Result<Fold, CorruptionView> {
    let st = f.state;
    if phase_check(st, AgentPhase::ReadyToCommitTurn, kind) is Some {
        Err(phase_check(st, AgentPhase::ReadyToCommitTurn, kind)->0)
    } else if turn_ordinal != st.next_turn_ordinal {
        corrupt(
            CorruptionError::TurnOrdinal {
                expected: st.next_turn_ordinal,
                actual: turn_ordinal,
            },
        )
    } else if Some(assistant_entry_id) != st.current_assistant_entry {
        corrupt(CorruptionError::UnknownEntry(assistant_entry_id))
    } else if tool_result_entry_ids != f.turn_results {
        corrupt(CorruptionError::TurnResultOrder)
    } else {
        Ok(
            Fold {
                state: RecoveryView {
                    next_turn_ordinal: (st.next_turn_ordinal + 1) as u64,
                    turn_count: (st.turn_count + 1) as u64,
                    current_assistant_entry: None,
                    pending_tool_calls: Seq::empty(),
                    phase: AgentPhase::ReadyForModel,
                    ..st
                },
                turn_results: Seq::empty(),
                ..f
            },
        )
    }
}

/// The run ends with its terminal result.
pub open spec fn result_committed_step(f: Fold, result: AgentTerminalResult, kind: &'static str) -> Result<Fold, CorruptionView> {
    let st = f.state;
    if st.active_model_attempt is Some || st.active_tool_attempt is Some {
        corrupt(CorruptionError::InvalidRecord { record: kind, phase: st.phase })
    } else {
        let check = match result {
            AgentTerminalResult::Succeeded { assistant_entry_id } => if phase_check(
                st,
                AgentPhase::ReadyToCommitResult,
                kind,
            ) is Some {
                phase_check(st, AgentPhase::ReadyToCommitResult, kind)
            } else if Some(assistant_entry_id) != st.current_assistant_entry {
                Some(
                    CorruptionView::Other(
                        CorruptionError::TerminalAssistantMismatch(assistant_entry_id),
                    ),
                )
            } else {
                None
            },
            AgentTerminalResult::RequiresIntervention { .. } => phase_check(
                st,
                AgentPhase::InterventionPending,
                kind,
            ),
            _ => None,
        };
        if check is Some {
            Err(check->0)
        } else {
            Ok(
                Fold {
                    state: RecoveryView {
                        terminal_result: Some(result),
                        phase: AgentPhase::Terminal,
                        ..st
                    },
                    ..f
                },
            )
        }
    }
}

/// One record applied to the fold. `index` is the record's position.
pub open spec fn record_step(
    f: Fold,
    sc: EntryScan,
    entries: Seq<AgentEntry>,
    r: AgentRecord,
    index: int,
) -> Result<Fold, CorruptionView> {
    let st = f.state;
    let kind = r.data.spec_kind();
    if r.sequence != index + 1 {
        corrupt(CorruptionError::RecordSequence { expected: (index + 1) as u64, actual: r.sequence })
    } else if r.run_id != st.run_id {
        corrupt(CorruptionError::RunMismatch { expected: st.run_id, actual: r.run_id })
    } else if st.phase is Terminal {
        corrupt(CorruptionError::RecordAfterTerminal(kind))
    } else {
        match r.data {
            AgentRecordData::ModelAttemptStarted { attempt_id, request_ordinal } => model_started_step(
                f,
                attempt_id,
                request_ordinal,
                kind,
            ),
            AgentRecordData::ModelAttemptInterrupted { attempt_id, .. } => model_interrupted_step(
                f,
                attempt_id,
                kind,
            ),
            AgentRecordData::ModelAttemptCompleted { attempt_id, assistant_entry_id } => model_completed_step(
                f,
                sc,
                entries,
                attempt_id,
                assistant_entry_id,
                kind,
            ),
            AgentRecordData::ToolAttemptStarted { attempt_id, logical_call_id } => tool_started_step(
                f,
                sc,
                attempt_id,
                logical_call_id,
                kind,
            ),
            AgentRecordData::ToolCallPrepared {
                attempt_id,
                logical_call_id,
                assistant_entry_id,
                source_index,
                provider_call_id,
                requested_tool_name,
                result_entry_id,
                disposition,
            } => tool_prepared_step(
                f,
                attempt_id,
                logical_call_id,
                assistant_entry_id,
                source_index,
                provider_call_id,
                requested_tool_name,
                result_entry_id,
                *disposition,
                kind,
            ),
            AgentRecordData::ToolEffectStarted { attempt_id } => effect_started_step(
                f,
                attempt_id,
                kind,
            ),
            AgentRecordData::ToolEffectCompleted { attempt_id, result } => effect_completed_step(
                f,
                attempt_id,
                result,
                kind,
            ),
            AgentRecordData::ToolAttemptInterrupted { attempt_id, reason } => tool_interrupted_step(
                f,
                attempt_id,
                reason,
                kind,
            ),
            AgentRecordData::ToolAttemptRejected { attempt_id, result_entry_id, failed_at } => {
                finish_step(
                    f,
                    sc,
                    entries,
                    attempt_id,
                    result_entry_id,
                    Settlement::Rejected(failed_at),
                    kind,
                )
            },
            AgentRecordData::ToolAttemptDenied { attempt_id, result_entry_id } => {
                finish_step(f, sc, entries, attempt_id, result_entry_id, Settlement::Denied, kind)
            },
            AgentRecordData::ToolAttemptCompleted { attempt_id, result_entry_id } => {
                finish_step(f, sc, entries, attempt_id, result_entry_id, Settlement::Completed, kind)
            },
            AgentRecordData::ToolAttemptIntervention { attempt_id, reason } => intervention_step(
                f,
                attempt_id,
                reason,
                kind,
            ),
            AgentRecordData::TurnCommitted {
                turn_ordinal,
                assistant_entry_id,
                tool_result_entry_ids,
            } => turn_committed_step(
                f,
                turn_ordinal,
                assistant_entry_id,
                tool_result_entry_ids@,
                kind,
            ),
            AgentRecordData::AgentResultCommitted { result } => result_committed_step(
                f,
                result,
                kind,
            ),
        }
    }
}

/// The records from index `i` on applied to the fold.
pub open spec fn fold_records_from(
    f: Fold,
    sc: EntryScan,
    entries: Seq<AgentEntry>,
    records: Seq<AgentRecord>,
    i: int,
) -> Result<Fold, CorruptionView>
    decreases records.len() - i,
{
    if i < 0 || i >= records.len() {
        Ok(f)
    } else {
        match record_step(f, sc, entries, records[i], i) {
            Ok(next) => fold_records_from(next, sc, entries, records, i + 1),
            Err(err) => Err(err),
        }
    }
}

/// The first generated entry, from index `i` on, that no record finalized.
pub open spec fn first_orphan(entries: Seq<AgentEntry>, finalized: Seq<AgentEntryId>, i: int) -> Option<
    AgentEntryId,
>
    decreases entries.len() - i,
{
    if i < 0 || i >= entries.len() {
        None
    } else if !(entries[i].data is UserInput) && !finalized.contains(entries[i].id) {
        Some(entries[i].id)
    } else {
        first_orphan(entries, finalized, i + 1)
    }
}

/// What a history recovers to, or the first corruption it shows.
pub open spec fn reduce_history(
    run_id: AgentRunId,
    entries: Seq<AgentEntry>,
    records: Seq<AgentRecord>,
) -> Result<RecoveryView, CorruptionView> {
    match scan_entries_from(empty_scan(), run_id, entries, 0) {
        Err(err) => Err(err),
        Ok(sc) => match fold_records_from(initial_fold(run_id, sc.context), sc, entries, records, 0) {
            Err(err) => Err(err),
            Ok(f) => match first_orphan(entries, f.finalized, 0) {
                Some(id) => corrupt(CorruptionError::OrphanGeneratedEntry(id)),
                None => Ok(f.state),
            },
        },
    }
}

/// Folding one more record continues from where the shorter history stopped.
proof fn lemma_fold_from_push(
    f: Fold,
    sc: EntryScan,
    entries: Seq<AgentEntry>,
    records: Seq<AgentRecord>,
    r: AgentRecord,
    i: int,
)
    requires
        0 <= i <= records.len(),
    ensures
        fold_records_from(f, sc, entries, records.push(r), i) == (match fold_records_from(
            f,
            sc,
            entries,
            records,
            i,
        ) {
            Ok(g) => record_step(g, sc, entries, r, records.len() as int),
            Err(e) => Err(e),
        }),
    decreases records.len() - i,
{
    let longer = records.push(r);
    if i < records.len() {
        assert(longer[i] == records[i]);
        match record_step(f, sc, entries, records[i], i) {
            Ok(next) => lemma_fold_from_push(next, sc, entries, records, r, i + 1),
            Err(_) => {},
        }
    } else {
        assert(longer[i] == r);
        match record_step(f, sc, entries, r, i) {
            Ok(next) => {
                assert(fold_records_from(next, sc, entries, longer, i + 1) == Ok::<
                    Fold,
                    CorruptionView,
                >(next));
            },
            Err(_) => {},
        }
    }
}

/// Replaying a history with one more record is replaying the shorter
/// history and then that record.
pub proof fn lemma_fold_push(
    f: Fold,
    sc: EntryScan,
    entries: Seq<AgentEntry>,
    records: Seq<AgentRecord>,
    r: AgentRecord,
)
    ensures
        fold_records_from(f, sc, entries, records.push(r), 0) == (match fold_records_from(
            f,
            sc,
            entries,
            records,
            0,
        ) {
            Ok(g) => record_step(g, sc, entries, r, records.len() as int),
            Err(e) => Err(e),
        }),
{
    lemma_fold_from_push(f, sc, entries, records, r, 0);
}

/// Once a history holds its terminal result, no record may follow it:
/// recovery of the longer history fails, and when the record is otherwise
/// well placed the failure names the record after the terminal result.
pub proof fn lemma_no_record_after_terminal(
    run_id: AgentRunId,
    entries: Seq<AgentEntry>,
    records: Seq<AgentRecord>,
    r: AgentRecord,
)
    requires
        reduce_history(run_id, entries, records) matches Ok(st) && st.phase is Terminal,
    ensures
        reduce_history(run_id, entries, records.push(r)) is Err,
        r.sequence == records.len() + 1 && r.run_id == run_id ==> reduce_history(
            run_id,
            entries,
            records.push(r),
        ) == corrupt::<RecoveryView>(CorruptionError::RecordAfterTerminal(r.data.spec_kind())),
{
    let sc = scan_entries_from(empty_scan(), run_id, entries, 0)->Ok_0;
    let f0 = initial_fold(run_id, sc.context);
    lemma_fold_push(f0, sc, entries, records, r);
    lemma_fold_run_id(f0, sc, entries, records, 0);
}

/// Replay never changes the run a state belongs to.
proof fn lemma_fold_run_id(
    f: Fold,
    sc: EntryScan,
    entries: Seq<AgentEntry>,
    records: Seq<AgentRecord>,
    i: int,
)
    requires
        0 <= i,
    ensures
        fold_records_from(f, sc, entries, records, i) matches Ok(g) ==> g.state.run_id
            == f.state.run_id,
    decreases records.len() - i,
{
    if i < records.len() {
        match record_step(f, sc, entries, records[i], i) {
            Ok(next) => lemma_fold_run_id(next, sc, entries, records, i + 1),
            Err(_) => {},
        }
    }
}

/// A tool effect starts only for an attempt whose logical call holds an
/// executable preparation and whose own preparation is durable: a no-effect
/// preparation never reaches the effect boundary.
pub proof fn lemma_effect_start_needs_executable_preparation(
    f: Fold,
    sc: EntryScan,
    entries: Seq<AgentEntry>,
    r: AgentRecord,
    index: int,
)
    requires
        record_step(f, sc, entries, r, index) is Ok,
        r.data is ToolEffectStarted,
    ensures
        ({
            let a = r.data->ToolEffectStarted_attempt_id;
            let st = f.state;
            &&& st.active_tool_attempt == Some(a)
            &&& attempt_call(st.tool_attempts, a) matches Some(call) && assoc_get(
                st.tool_preparations,
                call,
            ) matches Some(p) && p.disposition is Executable
            &&& attempt_status(st.tool_attempts, a) == Some(ToolAttemptStatus::Prepared)
        }),
{
}

/// A prepared tool attempt settles only with the record its preparation
/// calls for: completed only after an executable preparation, denied only
/// after a policy failure, rejected only at the stage that failed and never
/// at policy.
pub proof fn lemma_settlement_matches_preparation(
    f: Fold,
    sc: EntryScan,
    entries: Seq<AgentEntry>,
    r: AgentRecord,
    index: int,
)
    requires
        record_step(f, sc, entries, r, index) is Ok,
    ensures
        ({
            let st = f.state;
            match r.data {
                AgentRecordData::ToolAttemptCompleted { attempt_id, .. } => attempt_call(
                    st.tool_attempts,
                    attempt_id,
                ) matches Some(call) && (assoc_get(st.tool_preparations, call) matches Some(p)
                    ==> p.disposition is Executable),
                AgentRecordData::ToolAttemptDenied { attempt_id, .. } => attempt_call(
                    st.tool_attempts,
                    attempt_id,
                ) matches Some(call) && (assoc_get(st.tool_preparations, call) matches Some(p)
                    ==> failed_stage(p.disposition) == Some(ToolPreparationStage::Policy)),
                AgentRecordData::ToolAttemptRejected { attempt_id, failed_at, .. } => attempt_call(
                    st.tool_attempts,
                    attempt_id,
                ) matches Some(call) && (assoc_get(st.tool_preparations, call) matches Some(p)
                    ==> failed_at != ToolPreparationStage::Policy && failed_stage(p.disposition)
                    == Some(failed_at)),
                _ => true,
            }
        }),
{
}

/// The ordinal of the next model request runs one ahead of the number of
/// requests, and so does the ordinal of the next turn.
pub open spec fn ordinals_follow_counts(st: RecoveryView) -> bool {
    &&& st.next_model_request_ordinal == st.model_request_count + 1
    &&& st.next_turn_ordinal == st.turn_count + 1
}

proof fn lemma_fold_keeps_ordinals(
    f: Fold,
    sc: EntryScan,
    entries: Seq<AgentEntry>,
    records: Seq<AgentRecord>,
    i: int,
)
    requires
        0 <= i <= records.len(),
        records.len() < u64::MAX,
        ordinals_follow_counts(f.state),
        f.state.model_request_count <= i,
        f.state.turn_count <= i,
    ensures
        fold_records_from(f, sc, entries, records, i) matches Ok(g) ==> ordinals_follow_counts(
            g.state,
        ),
    decreases records.len() - i,
{
    if i < records.len() {
        match record_step(f, sc, entries, records[i], i) {
            Ok(next) => {
                assert(ordinals_follow_counts(next.state));
                assert(next.state.model_request_count <= i + 1);
                assert(next.state.turn_count <= i + 1);
                lemma_fold_keeps_ordinals(next, sc, entries, records, i + 1);
            },
            Err(_) => {},
        }
    }
}

/// Every recovered state numbers its next model request and its next turn
/// one past the requests and turns it has seen.
pub proof fn lemma_recovered_ordinals(
    run_id: AgentRunId,
    entries: Seq<AgentEntry>,
    records: Seq<AgentRecord>,
)
    requires
        records.len() < u64::MAX,
    ensures
        reduce_history(run_id, entries, records) matches Ok(st) ==> ordinals_follow_counts(st),
{
    match scan_entries_from(empty_scan(), run_id, entries, 0) {
        Ok(sc) => lemma_fold_keeps_ordinals(initial_fold(run_id, sc.context), sc, entries, records, 0),
        Err(_) => {},
    }
}

/// The preparation a record states for its logical call, when it is a
/// preparation record.
pub open spec fn stated_preparation(d: AgentRecordData) -> Option<(LogicalToolCallId, ToolCallPreparation)> {
    match d {
        AgentRecordData::ToolCallPrepared {
            logical_call_id,
            assistant_entry_id,
            source_index,
            provider_call_id,
            requested_tool_name,
            result_entry_id,
            disposition,
            ..
        } => Some(
            (
                logical_call_id,
                ToolCallPreparation {
                    assistant_entry_id,
                    source_index,
                    provider_call_id,
                    requested_tool_name,
                    result_entry_id,
                    disposition: *disposition,
                },
            ),
        ),
        _ => None,
    }
}

/// Every preparation record among the first `n` matches the preparation the
/// state holds for its call.
pub open spec fn preparations_held(st: RecoveryView, records: Seq<AgentRecord>, n: int) -> bool {
    forall|j: int| 0 <= j < n ==> prepared_as_held(st, #[trigger] records[j])
}

/// The record, when it is a preparation record, states the preparation the
/// state holds for its call.
pub open spec fn prepared_as_held(st: RecoveryView, r: AgentRecord) -> bool {
    match stated_preparation(r.data) {
        Some(lp) => assoc_get(st.tool_preparations, lp.0) matches Some(p) && same_preparation(
            p,
            lp.1,
        ),
        None => true,
    }
}

proof fn lemma_same_effect_equivalence(a: EffectDescriptor, b: EffectDescriptor, c: EffectDescriptor)
    ensures
        crate::tools::tool::same_effect(a, a),
        crate::tools::tool::same_effect(a, b) ==> crate::tools::tool::same_effect(b, a),
        crate::tools::tool::same_effect(a, b) && crate::tools::tool::same_effect(b, c)
            ==> crate::tools::tool::same_effect(a, c),
{
    if let EffectDescriptor::Synthetic { attributes: p, .. } = a {
        lemma_same_json_reflexive(p);
        if let EffectDescriptor::Synthetic { attributes: q, .. } = b {
            if crate::tools::tool::same_effect(a, b) {
                lemma_same_json_symmetric(p, q);
                if let EffectDescriptor::Synthetic { attributes: r, .. } = c {
                    if crate::tools::tool::same_effect(b, c) {
                        lemma_same_json_transitive(p, q, r);
                    }
                }
            }
        }
    }
}

proof fn lemma_same_opt_effect_equivalence(
    a: Option<EffectDescriptor>,
    b: Option<EffectDescriptor>,
    c: Option<EffectDescriptor>,
)
    ensures
        crate::tools::disposition::same_opt_effect(a, a),
        crate::tools::disposition::same_opt_effect(a, b) ==> crate::tools::disposition::same_opt_effect(b, a),
        crate::tools::disposition::same_opt_effect(a, b) && crate::tools::disposition::same_opt_effect(b, c)
            ==> crate::tools::disposition::same_opt_effect(a, c),
{
    if let (Some(x), Some(y), Some(z)) = (a, b, c) {
        lemma_same_effect_equivalence(x, y, z);
    } else if let (Some(x), Some(y)) = (a, b) {
        lemma_same_effect_equivalence(x, y, y);
    } else if let Some(x) = a {
        lemma_same_effect_equivalence(x, x, x);
    }
}

/// Recording the same preparation holds of a preparation with itself, goes
/// both ways, and carries over from one preparation to the next.
proof fn lemma_same_preparation_equivalence(
    a: ToolCallPreparation,
    b: ToolCallPreparation,
    c: ToolCallPreparation,
)
    ensures
        same_preparation(a, a),
        same_preparation(a, b) ==> same_preparation(b, a),
        same_preparation(a, b) && same_preparation(b, c) ==> same_preparation(a, c),
{
    match (a.disposition, b.disposition, c.disposition) {
        (
            ToolPreparationDisposition::Executable { effect: x, .. },
            ToolPreparationDisposition::Executable { effect: y, .. },
            ToolPreparationDisposition::Executable { effect: z, .. },
        ) => lemma_same_effect_equivalence(x, y, z),
        (
            ToolPreparationDisposition::NoEffect { effect: x, .. },
            ToolPreparationDisposition::NoEffect { effect: y, .. },
            ToolPreparationDisposition::NoEffect { effect: z, .. },
        ) => lemma_same_opt_effect_equivalence(x, y, z),
        (
            ToolPreparationDisposition::Executable { effect: x, .. },
            ToolPreparationDisposition::Executable { effect: y, .. },
            _,
        ) => lemma_same_effect_equivalence(x, y, y),
        (
            ToolPreparationDisposition::NoEffect { effect: x, .. },
            ToolPreparationDisposition::NoEffect { effect: y, .. },
            _,
        ) => lemma_same_opt_effect_equivalence(x, y, y),
        (ToolPreparationDisposition::Executable { effect: x, .. }, _, _) => {
            lemma_same_effect_equivalence(x, x, x)
        },
        (ToolPreparationDisposition::NoEffect { effect: x, .. }, _, _) => {
            lemma_same_opt_effect_equivalence(x, x, x)
        },
    }
}

/// One accepted record keeps every earlier preparation matched, and matches
/// its own.
#[verifier::rlimit(40)]
proof fn lemma_step_keeps_preparations(
    f: Fold,
    sc: EntryScan,
    entries: Seq<AgentEntry>,
    records: Seq<AgentRecord>,
    i: int,
    next: Fold,
)
    requires
        0 <= i < records.len(),
        preparations_held(f.state, records, i),
        record_step(f, sc, entries, records[i], i) == Ok::<Fold, CorruptionView>(next),
    ensures
        preparations_held(next.state, records, i + 1),
{
    let st = f.state;
    match stated_preparation(records[i].data) {
        None => {
            assert(next.state.tool_preparations == st.tool_preparations);
            assert forall|j: int| 0 <= j < i + 1 implies prepared_as_held(
                next.state,
                #[trigger] records[j],
            ) by {
                if j < i {
                    assert(prepared_as_held(st, records[j]));
                }
            }
        },
        Some(lp) => {
            let call = lp.0;
            let prep = lp.1;
            let old = assoc_get(st.tool_preparations, call);
            assert(next.state.tool_preparations == assoc_insert(st.tool_preparations, call, prep));
            assert(old is Some ==> same_preparation(old->0, prep));
            assert forall|j: int| 0 <= j < i + 1 implies prepared_as_held(
                next.state,
                #[trigger] records[j],
            ) by {
                if let Some(other) = stated_preparation(records[j].data) {
                    lemma_assoc_get_insert(st.tool_preparations, call, prep, other.0);
                    if j == i {
                        lemma_same_preparation_equivalence(prep, prep, prep);
                    } else if other.0 == call {
                        assert(prepared_as_held(st, records[j]));
                        let held = old->0;
                        lemma_same_preparation_equivalence(held, prep, other.1);
                        lemma_same_preparation_equivalence(prep, held, other.1);
                    }
                }
            }
        },
    }
}

proof fn lemma_fold_keeps_preparations(
    f: Fold,
    sc: EntryScan,
    entries: Seq<AgentEntry>,
    records: Seq<AgentRecord>,
    i: int,
)
    requires
        0 <= i <= records.len(),
        preparations_held(f.state, records, i),
    ensures
        fold_records_from(f, sc, entries, records, i) matches Ok(g) ==> preparations_held(
            g.state,
            records,
            records.len() as int,
        ),
    decreases records.len() - i,
{
    if i < records.len() {
        match record_step(f, sc, entries, records[i], i) {
            Ok(next) => {
                lemma_step_keeps_preparations(f, sc, entries, records, i, next);
                lemma_fold_keeps_preparations(next, sc, entries, records, i + 1);
            },
            Err(_) => {},
        }
    }
}

/// Every attempt of one logical call reproduces the same preparation: in a
/// history that recovers, each preparation record states the preparation
/// the recovered state holds for its call.
pub proof fn lemma_preparations_agree(
    run_id: AgentRunId,
    entries: Seq<AgentEntry>,
    records: Seq<AgentRecord>,
)
    ensures
        reduce_history(run_id, entries, records) matches Ok(st) ==> preparations_held(
            st,
            records,
            records.len() as int,
        ),
{
    match scan_entries_from(empty_scan(), run_id, entries, 0) {
        Ok(sc) => lemma_fold_keeps_preparations(
            initial_fold(run_id, sc.context),
            sc,
            entries,
            records,
            0,
        ),
        Err(_) => {},
    }
}


/// How many of the first `n` records start a model attempt.
pub open spec fn count_model_starts(records: Seq<AgentRecord>, n: int) -> int
    decreases n,
{
    if n <= 0 {
        0
    } else {
        count_model_starts(records, n - 1) + if records[n - 1].data is ModelAttemptStarted {
            1int
        } else {
            0int
        }
    }
}

/// How many of the first `n` records commit a turn.
pub open spec fn count_turns(records: Seq<AgentRecord>, n: int) -> int
    decreases n,
{
    if n <= 0 {
        0
    } else {
        count_turns(records, n - 1) + if records[n - 1].data is TurnCommitted {
            1int
        } else {
            0int
        }
    }
}

/// How many of the first `n` records start a tool attempt.
pub open spec fn count_tool_starts(records: Seq<AgentRecord>, n: int) -> int
    decreases n,
{
    if n <= 0 {
        0
    } else {
        count_tool_starts(records, n - 1) + if records[n - 1].data is ToolAttemptStarted {
            1int
        } else {
            0int
        }
    }
}

proof fn lemma_counts_bounded(records: Seq<AgentRecord>, n: int)
    requires
        0 <= n,
    ensures
        0 <= count_model_starts(records, n) <= n,
        0 <= count_turns(records, n) <= n,
        0 <= count_tool_starts(records, n) <= n,
    decreases n,
{
    if n > 0 {
        lemma_counts_bounded(records, n - 1);
    }
}

/// The state's counters are the numbers of model attempts started, turns
/// committed and tool attempts started among the first `n` records, and the
/// run is terminal exactly when it holds its result.
pub open spec fn counts_follow_records(st: RecoveryView, records: Seq<AgentRecord>, n: int) -> bool {
    &&& st.model_request_count == count_model_starts(records, n)
    &&& st.turn_count == count_turns(records, n)
    &&& st.tool_attempt_count == count_tool_starts(records, n)
    &&& (st.phase == AgentPhase::Terminal) == (st.terminal_result is Some)
}

#[verifier::rlimit(60)]
proof fn lemma_step_keeps_counts(
    f: Fold,
    sc: EntryScan,
    entries: Seq<AgentEntry>,
    records: Seq<AgentRecord>,
    i: int,
    next: Fold,
)
    requires
        0 <= i < records.len(),
        records.len() < u64::MAX,
        counts_follow_records(f.state, records, i),
        record_step(f, sc, entries, records[i], i) == Ok::<Fold, CorruptionView>(next),
    ensures
        counts_follow_records(next.state, records, i + 1),
{
    lemma_counts_bounded(records, i);
    let st = f.state;
    assert(!(st.phase is Terminal));
    assert(st.terminal_result is None);
    match records[i].data {
        AgentRecordData::ModelAttemptStarted { .. } => {},
        AgentRecordData::TurnCommitted { .. } => {},
        AgentRecordData::ToolAttemptStarted { .. } => {},
        AgentRecordData::AgentResultCommitted { .. } => {},
        _ => {
            assert(next.state.model_request_count == st.model_request_count);
            assert(next.state.turn_count == st.turn_count);
            assert(next.state.tool_attempt_count == st.tool_attempt_count);
            assert(next.state.terminal_result == st.terminal_result);
            assert(next.state.phase != AgentPhase::Terminal);
        },
    }
}

proof fn lemma_fold_keeps_counts(
    f: Fold,
    sc: EntryScan,
    entries: Seq<AgentEntry>,
    records: Seq<AgentRecord>,
    i: int,
)
    requires
        0 <= i <= records.len(),
        records.len() < u64::MAX,
        counts_follow_records(f.state, records, i),
    ensures
        fold_records_from(f, sc, entries, records, i) matches Ok(g) ==> counts_follow_records(
            g.state,
            records,
            records.len() as int,
        ),
    decreases records.len() - i,
{
    if i < records.len() {
        match record_step(f, sc, entries, records[i], i) {
            Ok(next) => {
                lemma_step_keeps_counts(f, sc, entries, records, i, next);
                lemma_fold_keeps_counts(next, sc, entries, records, i + 1);
            },
            Err(_) => {},
        }
    }
}

/// In every recovered state the model request count is the number of
/// model attempts started, the turn count the number of turns committed,
/// the tool attempt count the number of tool attempts started, and the run
/// is terminal exactly when it holds its result.
pub proof fn lemma_recovered_counts(
    run_id: AgentRunId,
    entries: Seq<AgentEntry>,
    records: Seq<AgentRecord>,
)
    requires
        records.len() < u64::MAX,
    ensures
        reduce_history(run_id, entries, records) matches Ok(st) ==> counts_follow_records(
            st,
            records,
            records.len() as int,
        ),
{
    match scan_entries_from(empty_scan(), run_id, entries, 0) {
        Ok(sc) => lemma_fold_keeps_counts(initial_fold(run_id, sc.context), sc, entries, records, 0),
        Err(_) => {},
    }
}

proof fn lemma_scan_keeps_order(sc: EntryScan, run_id: AgentRunId, entries: Seq<AgentEntry>, i: int)
    requires
        0 <= i,
    ensures
        scan_entries_from(sc, run_id, entries, i) is Ok ==> forall|k: int|
            i <= k < entries.len() ==> #[trigger] entries[k].ordinal == k + 1 && entries[k].run_id
                == run_id,
    decreases entries.len() - i,
{
    if i < entries.len() {
        match scan_entry(sc, run_id, entries[i], i) {
            Ok(next) => lemma_scan_keeps_order(next, run_id, entries, i + 1),
            Err(_) => {},
        }
    }
}

proof fn lemma_fold_keeps_order(
    f: Fold,
    sc: EntryScan,
    entries: Seq<AgentEntry>,
    records: Seq<AgentRecord>,
    i: int,
)
    requires
        0 <= i,
    ensures
        fold_records_from(f, sc, entries, records, i) is Ok ==> forall|j: int|
            i <= j < records.len() ==> #[trigger] records[j].sequence == j + 1 && records[j].run_id
                == f.state.run_id,
        fold_records_from(f, sc, entries, records, i) is Ok ==> forall|j: int|
            i <= j < records.len() - 1 ==> !(#[trigger] records[j].data is AgentResultCommitted),
    decreases records.len() - i,
{
    if i < records.len() {
        match record_step(f, sc, entries, records[i], i) {
            Ok(next) => {
                assert(next.state.run_id == f.state.run_id);
                lemma_fold_keeps_order(next, sc, entries, records, i + 1);
                if records[i].data is AgentResultCommitted && i + 1 < records.len() {
                    assert(next.state.phase is Terminal);
                    assert(record_step(next, sc, entries, records[i + 1], i + 1) is Err);
                }
            },
            Err(_) => {},
        }
    }
}

/// A history that recovers is well formed: its entries are numbered from one
/// without a gap and belong to the run, and so are its records; its
/// terminal result, when it holds one, is its last record and its only one.
pub proof fn lemma_recovered_history_well_formed(
    run_id: AgentRunId,
    entries: Seq<AgentEntry>,
    records: Seq<AgentRecord>,
)
    ensures
        reduce_history(run_id, entries, records) is Ok ==> {
            &&& forall|k: int|
                0 <= k < entries.len() ==> #[trigger] entries[k].ordinal == k + 1
                    && entries[k].run_id == run_id
            &&& forall|j: int|
                0 <= j < records.len() ==> #[trigger] records[j].sequence == j + 1
                    && records[j].run_id == run_id
            &&& forall|j: int|
                0 <= j < records.len() - 1 ==> !(#[trigger] records[j].data is AgentResultCommitted)
        },
{
    lemma_scan_keeps_order(empty_scan(), run_id, entries, 0);
    match scan_entries_from(empty_scan(), run_id, entries, 0) {
        Ok(sc) => lemma_fold_keeps_order(initial_fold(run_id, sc.context), sc, entries, records, 0),
        Err(_) => {},
    }
}

/// The entries of a history that recovers have distinct ids, and no user
/// input follows a generated entry.
pub proof fn lemma_recovered_entries_distinct(
    run_id: AgentRunId,
    entries: Seq<AgentEntry>,
    records: Seq<AgentRecord>,
)
    requires
        entries.len() <= usize::MAX,
    ensures
        reduce_history(run_id, entries, records) is Ok ==> {
            &&& forall|k1: int, k2: int|
                0 <= k1 < k2 < entries.len() ==> #[trigger] entries[k1].id
                    != #[trigger] entries[k2].id
            &&& forall|k1: int, k2: int|
                0 <= k1 < k2 < entries.len() && !(#[trigger] entries[k1].data is UserInput)
                    ==> !(#[trigger] entries[k2].data is UserInput)
        },
{
    assert(scan_knows(empty_scan(), entries, 0));
    lemma_scan_knows(empty_scan(), run_id, entries, 0);
    if let Ok(sc) = scan_entries_from(empty_scan(), run_id, entries, 0) {
        assert forall|k1: int, k2: int|
            0 <= k1 < k2 < entries.len() && !(#[trigger] entries[k1].data is UserInput)
            implies !(#[trigger] entries[k2].data is UserInput) by {
            if k1 < sc.context.len() {
                assert(entries[k1].data is UserInput);
            }
        }
    }
}

/// A preparation record that states another preparation than the one held
/// for its call is never accepted; when the record is otherwise in place it
/// fails as a preparation conflict.
pub proof fn lemma_conflicting_preparation_rejected(
    f: Fold,
    sc: EntryScan,
    entries: Seq<AgentEntry>,
    r: AgentRecord,
    index: int,
)
    requires
        stated_preparation(r.data) matches Some(lp) && assoc_get(f.state.tool_preparations, lp.0)
            matches Some(held) && !same_preparation(held, lp.1),
    ensures
        record_step(f, sc, entries, r, index) is Err,
        ({
            let st = f.state;
            let a = r.data->ToolCallPrepared_attempt_id;
            let call = r.data->ToolCallPrepared_logical_call_id;
            (r.sequence == index + 1 && r.run_id == st.run_id && st.phase == AgentPhase::ToolInFlight
                && st.active_tool_attempt == Some(a) && attempt_call(st.tool_attempts, a) == Some(call)
                && st.current_assistant_entry == Some(r.data->ToolCallPrepared_assistant_entry_id)
                && attempt_status(st.tool_attempts, a) == Some(ToolAttemptStatus::Started))
                ==> record_step(f, sc, entries, r, index) == corrupt::<Fold>(
                CorruptionError::ToolPreparationConflict(call),
            )
        }),
{
}


/// What the scan of the first `i` entries knows: each entry id with its
/// position, ids distinct, ordinals contiguous, and the leading user inputs
/// as the context, with no user input after them.
pub open spec fn scan_knows(sc: EntryScan, entries: Seq<AgentEntry>, i: int) -> bool {
    &&& sc.by_id.len() == i
    &&& forall|k: int| 0 <= k < i ==> #[trigger] sc.by_id[k] == (entries[k].id, k as usize)
    &&& forall|k1: int, k2: int|
        0 <= k1 < k2 < i ==> #[trigger] entries[k1].id != #[trigger] entries[k2].id
    &&& forall|k: int| 0 <= k < i ==> #[trigger] entries[k].ordinal == k + 1
    &&& sc.context.len() <= i
    &&& forall|k: int| 0 <= k < sc.context.len() ==> #[trigger] sc.context[k] == entries[k].id
    &&& forall|k: int| 0 <= k < sc.context.len() ==> (#[trigger] entries[k].data is UserInput)
    &&& forall|k: int| sc.context.len() <= k < i ==> !(#[trigger] entries[k].data is UserInput)
    &&& sc.user_prefix ==> sc.context.len() == i
}

proof fn lemma_scan_knows(sc: EntryScan, run_id: AgentRunId, entries: Seq<AgentEntry>, i: int)
    requires
        0 <= i <= entries.len(),
        entries.len() <= usize::MAX,
        scan_knows(sc, entries, i),
    ensures
        scan_entries_from(sc, run_id, entries, i) matches Ok(done) ==> scan_knows(
            done,
            entries,
            entries.len() as int,
        ),
    decreases entries.len() - i,
{
    if i < entries.len() {
        let e = entries[i];
        match scan_entry(sc, run_id, e, i) {
            Ok(next) => {
                lemma_assoc_index_from_range(sc.by_id, e.id, 0);
                assert(next.by_id == sc.by_id.push((e.id, i as usize)));
                assert forall|k1: int, k2: int|
                    0 <= k1 < k2 < i + 1 implies #[trigger] entries[k1].id
                    != #[trigger] entries[k2].id by {
                    if k2 == i {
                        assert(sc.by_id[k1].0 != e.id);
                    }
                }
                assert(scan_knows(next, entries, i + 1));
                lemma_scan_knows(next, run_id, entries, i + 1);
            },
            Err(_) => {},
        }
    }
}

/// An entry found by id is the entry of that id, at the position its
/// ordinal gives.
proof fn lemma_entry_by_id(sc: EntryScan, entries: Seq<AgentEntry>, id: AgentEntryId)
    requires
        entries.len() <= usize::MAX,
        scan_knows(sc, entries, entries.len() as int),
    ensures
        entry_by_id(sc, entries, id) matches Some(e) ==> e.id == id && 1 <= e.ordinal
            <= entries.len() && entries[e.ordinal - 1] == e,
{
    lemma_assoc_index_from_range(sc.by_id, id, 0);
    if let Some(j) = assoc_index(sc.by_id, id) {
        assert(sc.by_id[j] == (entries[j].id, j as usize));
    }
}

/// The context is the ids of the first entries, in order; it holds at least
/// the leading user inputs; every finalized entry is in it.
pub open spec fn context_follows_entries(f: Fold, entries: Seq<AgentEntry>, lead: int) -> bool {
    let ctx = f.state.context_entry_ids;
    &&& lead <= ctx.len() <= entries.len()
    &&& forall|k: int| 0 <= k < ctx.len() ==> #[trigger] ctx[k] == entries[k].id
    &&& forall|x: AgentEntryId| #[trigger] f.finalized.contains(x) ==> ctx.contains(x)
}

#[verifier::rlimit(60)]
proof fn lemma_step_keeps_context(
    f: Fold,
    sc: EntryScan,
    entries: Seq<AgentEntry>,
    r: AgentRecord,
    i: int,
    next: Fold,
    lead: int,
)
    requires
        entries.len() <= usize::MAX,
        scan_knows(sc, entries, entries.len() as int),
        context_follows_entries(f, entries, lead),
        record_step(f, sc, entries, r, i) == Ok::<Fold, CorruptionView>(next),
    ensures
        context_follows_entries(next, entries, lead),
{
    let ctx = f.state.context_entry_ids;
    match r.data {
        AgentRecordData::ModelAttemptCompleted { assistant_entry_id, .. } => {
            lemma_entry_by_id(sc, entries, assistant_entry_id);
            let e = entry_by_id(sc, entries, assistant_entry_id)->0;
            assert(e == entries[ctx.len() as int]);
            assert(next.state.context_entry_ids == ctx.push(e.id));
            assert(next.finalized == f.finalized.push(e.id));
            assert forall|x: AgentEntryId| #[trigger] next.finalized.contains(x) implies next.state.context_entry_ids.contains(x) by {
                if x == e.id {
                    assert(next.state.context_entry_ids[ctx.len() as int] == x);
                } else {
                    assert(f.finalized.contains(x));
                    let m = choose|m: int| 0 <= m < ctx.len() && ctx[m] == x;
                    assert(next.state.context_entry_ids[m] == x);
                }
            }
        },
        AgentRecordData::ToolAttemptRejected { result_entry_id, .. } => {
            lemma_finish_keeps_context(f, sc, entries, r, i, next, lead, result_entry_id);
        },
        AgentRecordData::ToolAttemptDenied { result_entry_id, .. } => {
            lemma_finish_keeps_context(f, sc, entries, r, i, next, lead, result_entry_id);
        },
        AgentRecordData::ToolAttemptCompleted { result_entry_id, .. } => {
            lemma_finish_keeps_context(f, sc, entries, r, i, next, lead, result_entry_id);
        },
        _ => {
            assert(next.state.context_entry_ids == ctx);
            assert(next.finalized == f.finalized);
        },
    }
}

/// The result entry a settlement record names.
spec fn settlement_entry(d: AgentRecordData) -> Option<AgentEntryId> {
    match d {
        AgentRecordData::ToolAttemptRejected { result_entry_id, .. } => Some(result_entry_id),
        AgentRecordData::ToolAttemptDenied { result_entry_id, .. } => Some(result_entry_id),
        AgentRecordData::ToolAttemptCompleted { result_entry_id, .. } => Some(result_entry_id),
        _ => None,
    }
}

#[verifier::rlimit(60)]
proof fn lemma_finish_keeps_context(
    f: Fold,
    sc: EntryScan,
    entries: Seq<AgentEntry>,
    r: AgentRecord,
    i: int,
    next: Fold,
    lead: int,
    result_entry_id: AgentEntryId,
)
    requires
        entries.len() <= usize::MAX,
        scan_knows(sc, entries, entries.len() as int),
        context_follows_entries(f, entries, lead),
        record_step(f, sc, entries, r, i) == Ok::<Fold, CorruptionView>(next),
        settlement_entry(r.data) == Some(result_entry_id),
    ensures
        context_follows_entries(next, entries, lead),
{
    let ctx = f.state.context_entry_ids;
    lemma_entry_by_id(sc, entries, result_entry_id);
    match entry_by_id(sc, entries, result_entry_id) {
        None => {
            assert(next.state.context_entry_ids == ctx);
            assert(next.finalized == f.finalized);
        },
        Some(e) => {
            assert(e == entries[ctx.len() as int]);
            assert(next.state.context_entry_ids == ctx.push(e.id));
            assert(next.finalized == f.finalized.push(result_entry_id));
            assert forall|x: AgentEntryId| #[trigger] next.finalized.contains(x) implies next.state.context_entry_ids.contains(x) by {
                if x == result_entry_id {
                    assert(next.state.context_entry_ids[ctx.len() as int] == x);
                } else {
                    assert(f.finalized.contains(x));
                    let m = choose|m: int| 0 <= m < ctx.len() && ctx[m] == x;
                    assert(next.state.context_entry_ids[m] == x);
                }
            }
        },
    }
}

proof fn lemma_fold_keeps_context(
    f: Fold,
    sc: EntryScan,
    entries: Seq<AgentEntry>,
    records: Seq<AgentRecord>,
    i: int,
    lead: int,
)
    requires
        0 <= i <= records.len(),
        entries.len() <= usize::MAX,
        scan_knows(sc, entries, entries.len() as int),
        context_follows_entries(f, entries, lead),
    ensures
        fold_records_from(f, sc, entries, records, i) matches Ok(g) ==> context_follows_entries(
            g,
            entries,
            lead,
        ),
    decreases records.len() - i,
{
    if i < records.len() {
        match record_step(f, sc, entries, records[i], i) {
            Ok(next) => {
                lemma_step_keeps_context(f, sc, entries, records[i], i, next, lead);
                lemma_fold_keeps_context(next, sc, entries, records, i + 1, lead);
            },
            Err(_) => {},
        }
    }
}

proof fn lemma_no_orphan(entries: Seq<AgentEntry>, finalized: Seq<AgentEntryId>, i: int)
    requires
        0 <= i,
    ensures
        first_orphan(entries, finalized, i) is None ==> forall|k: int|
            i <= k < entries.len() ==> (#[trigger] entries[k].data is UserInput)
                || finalized.contains(entries[k].id),
    decreases entries.len() - i,
{
    if i < entries.len() {
        lemma_no_orphan(entries, finalized, i + 1);
    }
}

/// The model context of a recovered run is every entry of its history, in
/// ordinal order: nothing is left out and nothing is added.
pub proof fn lemma_context_is_every_entry(
    run_id: AgentRunId,
    entries: Seq<AgentEntry>,
    records: Seq<AgentRecord>,
)
    requires
        entries.len() <= usize::MAX,
    ensures
        reduce_history(run_id, entries, records) matches Ok(st) ==> st.context_entry_ids
            == entries.map_values(|e: AgentEntry| e.id),
{
    assert(scan_knows(empty_scan(), entries, 0));
    lemma_scan_knows(empty_scan(), run_id, entries, 0);
    match scan_entries_from(empty_scan(), run_id, entries, 0) {
        Ok(sc) => {
            let f0 = initial_fold(run_id, sc.context);
            let lead = sc.context.len() as int;
            assert forall|x: AgentEntryId| #[trigger] f0.finalized.contains(x) implies f0.state.context_entry_ids.contains(x) by {}
            assert(context_follows_entries(f0, entries, lead));
            lemma_fold_keeps_context(f0, sc, entries, records, 0, lead);
            match fold_records_from(f0, sc, entries, records, 0) {
                Ok(g) => {
                    lemma_no_orphan(entries, g.finalized, 0);
                    if first_orphan(entries, g.finalized, 0) is None {
                        let ctx = g.state.context_entry_ids;
                        assert forall|k: int| 0 <= k < entries.len() implies #[trigger] entries[k].ordinal > 0 && k < ctx.len() by {
                            if !(entries[k].data is UserInput) {
                                assert(g.finalized.contains(entries[k].id));
                                assert(ctx.contains(entries[k].id));
                                let m = choose|m: int| 0 <= m < ctx.len() && ctx[m] == entries[k].id;
                                assert(ctx[m] == entries[m].id);
                                if m < k {
                                    assert(entries[m].id != entries[k].id);
                                } else if k < m {
                                    assert(entries[k].id != entries[m].id);
                                }
                            }
                        }
                        if entries.len() > 0 {
                            let last = entries.len() - 1;
                            assert(entries[last].ordinal > 0 && last < ctx.len());
                        }
                        assert(ctx =~= entries.map_values(|e: AgentEntry| e.id));
                    }
                },
                Err(_) => {},
            }
        },
        Err(_) => {},
    }
}

/// Setting one attempt's status keeps every call and every other status.
proof fn lemma_set_status_shape(
    ta: Seq<(LogicalToolCallId, Seq<ToolAttemptState>)>,
    a: ToolAttemptId,
    s: ToolAttemptStatus,
)
    ensures
        ({
            let t = set_attempt_status(ta, a, s);
            &&& t.len() == ta.len()
            &&& forall|i: int|
                0 <= i < ta.len() ==> (#[trigger] t[i]).0 == ta[i].0 && t[i].1.len() == ta[i].1.len()
            &&& forall|i: int, j: int|
                #![trigger t[i].1[j]]
                0 <= i < ta.len() && 0 <= j < ta[i].1.len() ==> t[i].1[j].status == ta[i].1[j].status
                    || (t[i].1[j].status == s && attempt_call(ta, a) == Some(ta[i].0)
                    && ta[i].1[j].id == a)
            &&& forall|i: int, j: int|
                #![trigger t[i].1[j]]
                0 <= i < ta.len() && 0 <= j < ta[i].1.len() ==> t[i].1[j].id == ta[i].1[j].id
            &&& forall|x: ToolAttemptId| #[trigger] attempt_call(t, x) == attempt_call(ta, x)
            &&& attempt_call(ta, a) is Some ==> attempt_status(t, a) == Some(s)
        }),
{
    let t = set_attempt_status(ta, a, s);
    if let Some(i0) = call_of_attempt(ta, a, 0) {
        lemma_call_of_attempt_range(ta, a, 0);
        lemma_attempt_pos_range(ta[i0].1, a, 0);
    }
    assert forall|x: ToolAttemptId| #[trigger] attempt_call(t, x) == attempt_call(ta, x) by {
        lemma_call_of_attempt_same_ids(ta, t, x, 0);
    }
    if let Some(i0) = call_of_attempt(ta, a, 0) {
        lemma_call_of_attempt_same_ids(ta, t, a, 0);
        assert forall|m: int| 0 <= m < ta[i0].1.len() implies (#[trigger] ta[i0].1[m]).id == t[i0].1[m].id by {}
        lemma_attempt_pos_same_ids(ta[i0].1, t[i0].1, a, 0);
    }
}

proof fn lemma_attempt_pos_same_ids(s: Seq<ToolAttemptState>, u: Seq<ToolAttemptState>, a: ToolAttemptId, j: int)
    requires
        0 <= j,
        s.len() == u.len(),
        forall|m: int| 0 <= m < s.len() ==> (#[trigger] s[m]).id == u[m].id,
    ensures
        attempt_pos(s, a, j) == attempt_pos(u, a, j),
    decreases s.len() - j,
{
    if j < s.len() {
        assert(s[j].id == u[j].id);
        lemma_attempt_pos_same_ids(s, u, a, j + 1);
    }
}

proof fn lemma_call_of_attempt_same_ids(
    ta: Seq<(LogicalToolCallId, Seq<ToolAttemptState>)>,
    tb: Seq<(LogicalToolCallId, Seq<ToolAttemptState>)>,
    a: ToolAttemptId,
    i: int,
)
    requires
        0 <= i,
        ta.len() == tb.len(),
        forall|m: int| 0 <= m < ta.len() ==> (#[trigger] ta[m]).0 == tb[m].0 && ta[m].1.len() == tb[m].1.len(),
        forall|m: int, j: int|
            #![trigger tb[m].1[j]]
            0 <= m < ta.len() && 0 <= j < ta[m].1.len() ==> tb[m].1[j].id == ta[m].1[j].id,
    ensures
        call_of_attempt(ta, a, i) == call_of_attempt(tb, a, i),
        i == 0 ==> attempt_call(ta, a) == attempt_call(tb, a),
    decreases ta.len() - i,
{
    if i < ta.len() {
        assert(ta[i].0 == tb[i].0);
        assert forall|m: int| 0 <= m < ta[i].1.len() implies (#[trigger] ta[i].1[m]).id == tb[i].1[m].id by {
            assert(tb[i].1[m].id == ta[i].1[m].id);
        }
        lemma_attempt_pos_same_ids(ta[i].1, tb[i].1, a, 0);
        lemma_call_of_attempt_same_ids(ta, tb, a, i + 1);
    }
    if i == 0 {
        if let Some(k) = call_of_attempt(ta, a, 0) {
            lemma_call_of_attempt_range(ta, a, 0);
            assert(ta[k].0 == tb[k].0);
        }
    }
}

proof fn lemma_attempt_pos_found(s: Seq<ToolAttemptState>, a: ToolAttemptId, j: int, k: int)
    requires
        0 <= j <= k < s.len(),
        s[k].id == a,
    ensures
        attempt_pos(s, a, j) is Some,
    decreases k - j,
{
    if j < k && s[j].id != a {
        lemma_attempt_pos_found(s, a, j + 1, k);
    }
}

proof fn lemma_call_of_attempt_first(
    ta: Seq<(LogicalToolCallId, Seq<ToolAttemptState>)>,
    a: ToolAttemptId,
    i: int,
    k: int,
)
    requires
        0 <= i <= k < ta.len(),
        forall|m: int| i <= m < k ==> attempt_pos(#[trigger] ta[m].1, a, 0) is None,
        attempt_pos(ta[k].1, a, 0) is Some,
    ensures
        call_of_attempt(ta, a, i) == Some(k),
    decreases k - i,
{
    if i < k {
        assert(attempt_pos(ta[i].1, a, 0) is None);
        lemma_call_of_attempt_first(ta, a, i + 1, k);
    }
}

proof fn lemma_call_of_attempt_range(
    ta: Seq<(LogicalToolCallId, Seq<ToolAttemptState>)>,
    a: ToolAttemptId,
    i: int,
)
    requires
        0 <= i,
    ensures
        call_of_attempt(ta, a, i) matches Some(k) ==> i <= k < ta.len() && attempt_pos(
            ta[k].1,
            a,
            0,
        ) is Some && forall|m: int| i <= m < k ==> attempt_pos(#[trigger] ta[m].1, a, 0) is None,
        call_of_attempt(ta, a, i) is None ==> forall|m: int|
            i <= m < ta.len() ==> attempt_pos(#[trigger] ta[m].1, a, 0) is None,
    decreases ta.len() - i,
{
    if i < ta.len() && attempt_pos(ta[i].1, a, 0) is None {
        lemma_call_of_attempt_range(ta, a, i + 1);
    }
}

proof fn lemma_attempt_pos_range(s: Seq<ToolAttemptState>, a: ToolAttemptId, j: int)
    requires
        0 <= j,
    ensures
        attempt_pos(s, a, j) matches Some(k) ==> j <= k < s.len() && s[k].id == a,
        attempt_pos(s, a, j) is None ==> forall|m: int| j <= m < s.len() ==> (#[trigger] s[m]).id != a,
    decreases s.len() - j,
{
    if j < s.len() && s[j].id != a {
        lemma_attempt_pos_range(s, a, j + 1);
    }
}

/// A key found in a list is found at the same place in any extension of it.
proof fn lemma_assoc_get_extends<K, V>(s: Seq<(K, V)>, t: Seq<(K, V)>, k: K)
    requires
        s.len() <= t.len(),
        forall|m: int| 0 <= m < s.len() ==> t[m] == s[m],
        assoc_index(s, k) is Some,
    ensures
        assoc_get(t, k) == assoc_get(s, k),
{
    lemma_assoc_index_from_range(s, k, 0);
    lemma_assoc_index_from_range(t, k, 0);
    let m = assoc_index(s, k)->0;
    if let Some(n) = assoc_index(t, k) {
        if n < m {
            assert(t[n] == s[n]);
        }
        if m < n {
            assert(t[m] == s[m]);
        }
    }
}

/// What defining the calls of one message from index `i` on adds: each of
/// those calls, distinct and new, maps to the message's entry.
proof fn lemma_define_calls(
    defs: Seq<(LogicalToolCallId, AgentEntryId)>,
    calls: Seq<LogicalToolCallId>,
    entry_id: AgentEntryId,
    i: int,
)
    requires
        0 <= i,
    ensures
        define_calls(defs, calls, entry_id, i) matches Ok(d2) ==> {
            &&& defs.len() <= d2.len()
            &&& forall|m: int| 0 <= m < defs.len() ==> #[trigger] d2[m] == defs[m]
            &&& forall|k: int| i <= k < calls.len() ==> assoc_get(d2, #[trigger] calls[k]) == Some(entry_id)
            &&& forall|k: int| i <= k < calls.len() ==> assoc_index(defs, #[trigger] calls[k]) is None
            &&& forall|k1: int, k2: int|
                i <= k1 < k2 < calls.len() ==> #[trigger] calls[k1] != #[trigger] calls[k2]
        },
    decreases calls.len() - i,
{
    if i < calls.len() {
        if assoc_index(defs, calls[i]) is None {
            let d1 = defs.push((calls[i], entry_id));
            lemma_define_calls(d1, calls, entry_id, i + 1);
            lemma_assoc_index_from_range(defs, calls[i], 0);
            if let Ok(d2) = define_calls(d1, calls, entry_id, i + 1) {
                assert(assoc_index(d1, calls[i]) == Some(defs.len() as int)) by {
                    lemma_assoc_index_from_range(d1, calls[i], 0);
                    assert(d1[defs.len() as int].0 == calls[i]);
                }
                lemma_assoc_get_extends(d1, d2, calls[i]);
                assert forall|k: int| i <= k < calls.len() implies assoc_index(defs, #[trigger] calls[k]) is None by {
                    if k > i {
                        lemma_assoc_index_from_range(d1, calls[k], 0);
                        lemma_assoc_index_from_range(defs, calls[k], 0);
                        if let Some(m) = assoc_index(defs, calls[k]) {
                            assert(d1[m] == defs[m]);
                        }
                    }
                }
                assert forall|k1: int, k2: int|
                    i <= k1 < k2 < calls.len() implies #[trigger] calls[k1] != #[trigger] calls[k2] by {
                    if k1 == i {
                        lemma_assoc_index_from_range(d1, calls[k2], 0);
                        assert(d1[defs.len() as int].0 == calls[i]);
                    }
                }
            }
        }
    }
}

/// The calls of the assistant message at position `p`, if it is one.
pub open spec fn calls_at(entries: Seq<AgentEntry>, p: int) -> Seq<LogicalToolCallId> {
    match entries[p].data {
        AgentEntryData::AssistantMessage { message, .. } => logical_calls_of(message.content@),
        _ => Seq::empty(),
    }
}

/// What the scan of the first `i` entries knows of tool calls: the calls of
/// each assistant message are distinct, and each is defined by that message.
pub open spec fn scan_defines(sc: EntryScan, entries: Seq<AgentEntry>, i: int) -> bool {
    &&& forall|p: int, k: int|
        #![trigger calls_at(entries, p)[k]]
        0 <= p < i && 0 <= k < calls_at(entries, p).len() ==> assoc_get(
            sc.definitions,
            calls_at(entries, p)[k],
        ) == Some(entries[p].id)
    &&& forall|p: int, k1: int, k2: int|
        #![trigger calls_at(entries, p)[k1], calls_at(entries, p)[k2]]
        0 <= p < i && 0 <= k1 < k2 < calls_at(entries, p).len() ==> calls_at(entries, p)[k1]
            != calls_at(entries, p)[k2]
}

proof fn lemma_scan_defines(sc: EntryScan, run_id: AgentRunId, entries: Seq<AgentEntry>, i: int)
    requires
        0 <= i <= entries.len(),
        scan_defines(sc, entries, i),
    ensures
        scan_entries_from(sc, run_id, entries, i) matches Ok(done) ==> scan_defines(
            done,
            entries,
            entries.len() as int,
        ),
    decreases entries.len() - i,
{
    if i < entries.len() {
        let e = entries[i];
        match scan_entry(sc, run_id, e, i) {
            Ok(next) => {
                if let AgentEntryData::AssistantMessage { message, .. } = e.data {
                    let calls = logical_calls_of(message.content@);
                    assert(calls_at(entries, i as int) == calls);
                    lemma_define_calls(sc.definitions, calls, e.id, 0);
                    let d2 = next.definitions;
                    assert(define_calls(sc.definitions, calls, e.id, 0) == Ok::<
                        Seq<(LogicalToolCallId, AgentEntryId)>,
                        CorruptionView,
                    >(d2));
                    assert forall|p: int, k: int|
                        #![trigger calls_at(entries, p)[k]]
                        0 <= p < i + 1 && 0 <= k < calls_at(entries, p).len() implies assoc_get(
                        d2,
                        calls_at(entries, p)[k],
                    ) == Some(entries[p].id) by {
                        if p < i {
                            lemma_assoc_index_from_range(sc.definitions, calls_at(entries, p)[k], 0);
                            lemma_assoc_get_extends(sc.definitions, d2, calls_at(entries, p)[k]);
                        } else {
                            assert(assoc_get(d2, calls[k]) == Some(e.id));
                        }
                    }
                    assert forall|p: int, k1: int, k2: int|
                        #![trigger calls_at(entries, p)[k1], calls_at(entries, p)[k2]]
                        0 <= p < i + 1 && 0 <= k1 < k2 < calls_at(entries, p).len() implies calls_at(
                        entries,
                        p,
                    )[k1] != calls_at(entries, p)[k2] by {
                        if p == i {
                            assert(calls[k1] != calls[k2]);
                        }
                    }
                } else {
                    assert(next.definitions == sc.definitions);
                    assert(calls_at(entries, i as int).len() == 0);
                }
                assert(scan_defines(next, entries, i + 1));
                lemma_scan_defines(next, run_id, entries, i + 1);
            },
            Err(_) => {},
        }
    }
}

/// A status that settles an attempt with its result entry.
pub open spec fn attempt_settled(s: ToolAttemptStatus) -> bool {
    s is Rejected || s is Denied || s is Completed
}

/// Whether an attempt's status agrees with its call's preparation: a
/// settlement is the one the preparation calls for (and a rejection never
/// names the policy stage), and an effect that started or completed has an
/// executable preparation.
pub open spec fn status_fits(s: ToolAttemptStatus, prep: Option<ToolCallPreparation>) -> bool {
    match s {
        ToolAttemptStatus::Rejected { failed_at, .. } => settlement_allowed(
            Settlement::Rejected(failed_at),
            prep,
        ),
        ToolAttemptStatus::Denied { .. } => settlement_allowed(Settlement::Denied, prep),
        ToolAttemptStatus::Completed { .. } => settlement_allowed(Settlement::Completed, prep),
        ToolAttemptStatus::EffectInFlight => prep matches Some(p) && p.disposition is Executable,
        ToolAttemptStatus::EffectCompleted { .. } => prep matches Some(p) && p.disposition is Executable,
        _ => true,
    }
}

/// Every attempt's status agrees with its call's preparation.
pub open spec fn statuses_fit(st: RecoveryView) -> bool {
    forall|i: int, j: int|
        #![trigger st.tool_attempts[i].1[j]]
        0 <= i < st.tool_attempts.len() && 0 <= j < st.tool_attempts[i].1.len() ==> status_fits(
            st.tool_attempts[i].1[j].status,
            assoc_get(st.tool_preparations, st.tool_attempts[i].0),
        )
}

/// The active attempt belongs to the first pending call.
pub open spec fn active_on_first_pending(st: RecoveryView) -> bool {
    &&& st.pending_tool_calls.len() > 0
    &&& st.active_tool_attempt is Some
    &&& attempt_call(st.tool_attempts, st.active_tool_attempt->0) == Some(st.pending_tool_calls[0])
}

/// The call is defined by an entry already in the context.
pub open spec fn defined_in_context(
    sc: EntryScan,
    ctx: Seq<AgentEntryId>,
    c: LogicalToolCallId,
) -> bool {
    assoc_get(sc.definitions, c) is Some && ctx.contains(assoc_get(sc.definitions, c)->0)
}

/// What replay keeps of the tool calls: the active attempt is on the first
/// pending call; a settled attempt's call is no longer pending, unless the
/// run waits for that settled attempt's result; pending calls are distinct;
/// every call with attempts was defined by an entry in the context, and so
/// is the current assistant entry; every attempt id was seen.
pub open spec fn calls_tracked(f: Fold, sc: EntryScan) -> bool {
    let st = f.state;
    let ta = st.tool_attempts;
    let pend = st.pending_tool_calls;
    &&& (st.phase == AgentPhase::ToolInFlight || st.phase == AgentPhase::ToolResultPending)
        ==> active_on_first_pending(st)
    &&& (st.phase == AgentPhase::ToolsPending || st.phase == AgentPhase::ToolInFlight || st.phase
        == AgentPhase::ToolResultPending) ==> forall|i: int, j: int|
        #![trigger ta[i].1[j]]
        0 <= i < ta.len() && 0 <= j < ta[i].1.len() && attempt_settled(ta[i].1[j].status)
            ==> !pend.contains(ta[i].0) || (st.phase == AgentPhase::ToolResultPending
            && !effect_awaits_result(st))
    &&& (st.phase == AgentPhase::ToolsPending || st.phase == AgentPhase::ToolInFlight || st.phase
        == AgentPhase::ToolResultPending) ==> forall|k1: int, k2: int|
        0 <= k1 < k2 < pend.len() ==> #[trigger] pend[k1] != #[trigger] pend[k2]
    &&& forall|i: int| 0 <= i < ta.len() ==> defined_in_context(sc, st.context_entry_ids, #[trigger] ta[i].0)
    &&& st.current_assistant_entry is Some ==> st.context_entry_ids.contains(
        st.current_assistant_entry->0,
    )
    &&& forall|i: int, j: int|
        #![trigger ta[i].1[j]]
        0 <= i < ta.len() && 0 <= j < ta[i].1.len() ==> f.seen.contains(ta[i].1[j].id)
}

/// What the step lemmas of tool tracking take from the history.
pub open spec fn tracking_ready(f: Fold, sc: EntryScan, entries: Seq<AgentEntry>, lead: int) -> bool {
    &&& entries.len() <= usize::MAX
    &&& scan_knows(sc, entries, entries.len() as int)
    &&& scan_defines(sc, entries, entries.len() as int)
    &&& context_follows_entries(f, entries, lead)
    &&& statuses_fit(f.state)
    &&& calls_tracked(f, sc)
}

#[verifier::rlimit(80)]
proof fn lemma_started_keeps_tracking(
    f: Fold,
    sc: EntryScan,
    entries: Seq<AgentEntry>,
    r: AgentRecord,
    index: int,
    next: Fold,
    lead: int,
)
    requires
        tracking_ready(f, sc, entries, lead),
        r.data is ToolAttemptStarted,
        record_step(f, sc, entries, r, index) == Ok::<Fold, CorruptionView>(next),
    ensures
        statuses_fit(next.state),
        calls_tracked(next, sc),
{
    let st = f.state;
    let ta = st.tool_attempts;
    let t = next.state.tool_attempts;
    let a = r.data->ToolAttemptStarted_attempt_id;
    let c = r.data->ToolAttemptStarted_logical_call_id;
    let pend = st.pending_tool_calls;
    let new = ToolAttemptState { id: a, logical_call_id: c, status: ToolAttemptStatus::Started };
    let existing = match assoc_get(ta, c) {
        Some(list) => list,
        None => Seq::empty(),
    };
    assert(t == assoc_insert(ta, c, existing.push(new)));
    assert(!f.seen.contains(a));
    lemma_assoc_index_from_range(ta, c, 0);
    // No earlier list holds the new attempt.
    assert forall|m: int| 0 <= m < ta.len() implies attempt_pos(#[trigger] ta[m].1, a, 0) is None by {
        lemma_attempt_pos_range(ta[m].1, a, 0);
        if let Some(q) = attempt_pos(ta[m].1, a, 0) {
            assert(f.seen.contains(ta[m].1[q].id));
        }
    }
    let k = match assoc_index(ta, c) {
        Some(k) => k,
        None => ta.len() as int,
    };
    assert(t[k].0 == c);
    assert(t[k].1 == existing.push(new));
    lemma_attempt_pos_found(t[k].1, a, 0, existing.len() as int);
    assert forall|m: int| 0 <= m < k implies attempt_pos(#[trigger] t[m].1, a, 0) is None by {
        assert(t[m] == ta[m]);
    }
    lemma_call_of_attempt_first(t, a, 0, k);
    assert(attempt_call(t, a) == Some(c));
    assert(active_on_first_pending(next.state));
    assert forall|i: int, j: int|
        #![trigger t[i].1[j]]
        0 <= i < t.len() && 0 <= j < t[i].1.len() implies status_fits(
            t[i].1[j].status,
            assoc_get(next.state.tool_preparations, t[i].0),
        ) && f.seen.push(a).contains(t[i].1[j].id) && (attempt_settled(t[i].1[j].status) ==> !pend.contains(t[i].0)) by {
        let seen2 = f.seen.push(a);
        assert(seen2[f.seen.len() as int] == a);
        let x = if i == k && j >= existing.len() {
            new
        } else if i == k {
            ta[k].1[j]
        } else {
            ta[i].1[j]
        };
        if i == k {
            if j < existing.len() {
                assert(t[i].1[j] == ta[k].1[j]);
            } else {
                assert(t[i].1[j] == new);
            }
        } else {
            assert(t[i] == ta[i]);
        }
        assert(t[i].1[j] == x);
        if x != new {
            assert(f.seen.contains(x.id));
            let q = choose|q: int| 0 <= q < f.seen.len() && f.seen[q] == x.id;
            assert(seen2[q] == x.id);
        }
    }
    assert forall|i: int| 0 <= i < t.len() implies defined_in_context(
        sc,
        next.state.context_entry_ids,
        #[trigger] t[i].0,
    ) by {
        if i != k {
            assert(t[i] == ta[i]);
        }
    }
}

#[verifier::rlimit(80)]
proof fn lemma_prepared_keeps_tracking(
    f: Fold,
    sc: EntryScan,
    entries: Seq<AgentEntry>,
    r: AgentRecord,
    index: int,
    next: Fold,
    lead: int,
)
    requires
        tracking_ready(f, sc, entries, lead),
        r.data is ToolCallPrepared,
        record_step(f, sc, entries, r, index) == Ok::<Fold, CorruptionView>(next),
    ensures
        statuses_fit(next.state),
        calls_tracked(next, sc),
{
    let st = f.state;
    let ta = st.tool_attempts;
    let t = next.state.tool_attempts;
    let a = r.data->ToolCallPrepared_attempt_id;
    let c = r.data->ToolCallPrepared_logical_call_id;
    let pend = st.pending_tool_calls;
    let stated = stated_preparation(r.data)->0;
    let prep = stated.1;
    let old = assoc_get(st.tool_preparations, c);
    lemma_set_status_shape(ta, a, ToolAttemptStatus::Prepared);
    assert(t == set_attempt_status(ta, a, ToolAttemptStatus::Prepared));
    assert(next.state.tool_preparations == assoc_insert(st.tool_preparations, c, prep));
    assert(old is Some ==> same_preparation(old->0, prep));
    assert(st.phase == AgentPhase::ToolInFlight);
    assert(attempt_call(ta, a) == Some(c));
    assert(pend[0] == c);
    assert(pend.contains(c));
    assert forall|i: int, j: int|
        #![trigger t[i].1[j]]
        0 <= i < t.len() && 0 <= j < t[i].1.len() implies status_fits(
            t[i].1[j].status,
            assoc_get(next.state.tool_preparations, t[i].0),
        ) by {
        lemma_assoc_get_insert(st.tool_preparations, c, prep, t[i].0);
        assert(t[i].0 == ta[i].0);
        let s0 = ta[i].1[j].status;
        assert(status_fits(s0, assoc_get(st.tool_preparations, ta[i].0)));
        if ta[i].0 == c && t[i].1[j].status == s0 {
            if attempt_settled(s0) {
                assert(pend.contains(ta[i].0));
            }
        }
    }
    assert(calls_tracked(next, sc));
}

#[verifier::rlimit(80)]
proof fn lemma_effect_keeps_tracking(
    f: Fold,
    sc: EntryScan,
    entries: Seq<AgentEntry>,
    r: AgentRecord,
    index: int,
    next: Fold,
    lead: int,
)
    requires
        tracking_ready(f, sc, entries, lead),
        r.data is ToolEffectStarted || r.data is ToolEffectCompleted || r.data is ToolAttemptInterrupted
            || r.data is ToolAttemptIntervention,
        record_step(f, sc, entries, r, index) == Ok::<Fold, CorruptionView>(next),
    ensures
        statuses_fit(next.state),
        calls_tracked(next, sc),
{
    let st = f.state;
    let ta = st.tool_attempts;
    let t = next.state.tool_attempts;
    let a = st.active_tool_attempt->0;
    let s_new = attempt_status(t, a)->0;
    assert(st.phase == AgentPhase::ToolInFlight);
    let new_status = match r.data {
        AgentRecordData::ToolEffectStarted { .. } => ToolAttemptStatus::EffectInFlight,
        AgentRecordData::ToolEffectCompleted { result, .. } => {
            let prep = assoc_get(st.tool_preparations, attempt_call(ta, a)->0)->0;
            ToolAttemptStatus::EffectCompleted {
                result_entry_id: prep.result_entry_id,
                replay: prep.disposition->Executable_replay,
                result,
            }
        },
        AgentRecordData::ToolAttemptInterrupted { reason, .. } => ToolAttemptStatus::Interrupted {
            reason,
        },
        AgentRecordData::ToolAttemptIntervention { reason, .. } => ToolAttemptStatus::Intervention {
            reason,
        },
        _ => ToolAttemptStatus::Started,
    };
    lemma_set_status_shape(ta, a, new_status);
    assert(t == set_attempt_status(ta, a, new_status));
    assert(next.state.tool_preparations == st.tool_preparations);
    if r.data is ToolEffectCompleted {
        assert(attempt_status(t, a) == Some(new_status));
    }
    assert(calls_tracked(next, sc));
}

#[verifier::rlimit(100)]
proof fn lemma_finish_keeps_tracking(
    f: Fold,
    sc: EntryScan,
    entries: Seq<AgentEntry>,
    r: AgentRecord,
    index: int,
    next: Fold,
    lead: int,
)
    requires
        tracking_ready(f, sc, entries, lead),
        r.data is ToolAttemptRejected || r.data is ToolAttemptDenied || r.data is ToolAttemptCompleted,
        record_step(f, sc, entries, r, index) == Ok::<Fold, CorruptionView>(next),
    ensures
        statuses_fit(next.state),
        calls_tracked(next, sc),
{
    let st = f.state;
    let ta = st.tool_attempts;
    let t = next.state.tool_attempts;
    let pend = st.pending_tool_calls;
    let (a, result_entry_id, s) = match r.data {
        AgentRecordData::ToolAttemptRejected { attempt_id, result_entry_id, failed_at } => (
            attempt_id,
            result_entry_id,
            Settlement::Rejected(failed_at),
        ),
        AgentRecordData::ToolAttemptDenied { attempt_id, result_entry_id } => (
            attempt_id,
            result_entry_id,
            Settlement::Denied,
        ),
        AgentRecordData::ToolAttemptCompleted { attempt_id, result_entry_id } => (
            attempt_id,
            result_entry_id,
            Settlement::Completed,
        ),
        _ => (st.active_tool_attempt->0, result_entry_id_of(r.data), Settlement::Completed),
    };
    assert(record_step(f, sc, entries, r, index) == finish_step(
        f,
        sc,
        entries,
        a,
        result_entry_id,
        s,
        r.data.spec_kind(),
    ));
    assert(st.phase == AgentPhase::ToolInFlight || effect_awaits_result(st));
    assert(st.active_tool_attempt == Some(a));
    let c = attempt_call(ta, a)->0;
    let status = settled_status(s, result_entry_id);
    lemma_set_status_shape(ta, a, status);
    assert(t == set_attempt_status(ta, a, status));
    assert(next.state.tool_preparations == st.tool_preparations);
    assert(pend[0] == c);
    assert(settlement_allowed(s, assoc_get(st.tool_preparations, c)));
    assert(status_fits(status, assoc_get(st.tool_preparations, c)));
    assert(statuses_fit(next.state));
    if next.state.phase == AgentPhase::ToolResultPending {
        assert(attempt_status(t, a) == Some(status));
        assert(!effect_awaits_result(next.state));
        assert(calls_tracked(next, sc));
    } else {
        let pend2 = next.state.pending_tool_calls;
        assert(pend2 == pend.drop_first());
        assert forall|x: LogicalToolCallId| #[trigger] pend2.contains(x) implies pend.contains(x) && x != c by {
            let q = choose|q: int| 0 <= q < pend2.len() && pend2[q] == x;
            assert(pend[q + 1] == x);
            assert(pend[0] != pend[q + 1]);
        }
        assert forall|x: AgentEntryId| #[trigger] st.context_entry_ids.contains(x) implies next.state.context_entry_ids.contains(x) by {
            let q = choose|q: int| 0 <= q < st.context_entry_ids.len() && st.context_entry_ids[q] == x;
            assert(next.state.context_entry_ids[q] == x);
        }
        assert forall|k1: int, k2: int| 0 <= k1 < k2 < pend2.len() implies #[trigger] pend2[k1] != #[trigger] pend2[k2] by {
            assert(pend2[k1] == pend[k1 + 1]);
            assert(pend2[k2] == pend[k2 + 1]);
        }
        assert(calls_tracked(next, sc));
    }
}

/// The result entry a settlement record names, for any other record a
/// placeholder.
spec fn result_entry_id_of(d: AgentRecordData) -> AgentEntryId {
    match d {
        AgentRecordData::ToolAttemptRejected { result_entry_id, .. } => result_entry_id,
        AgentRecordData::ToolAttemptDenied { result_entry_id, .. } => result_entry_id,
        AgentRecordData::ToolAttemptCompleted { result_entry_id, .. } => result_entry_id,
        _ => AgentEntryId(0),
    }
}

#[verifier::rlimit(100)]
proof fn lemma_model_completed_keeps_tracking(
    f: Fold,
    sc: EntryScan,
    entries: Seq<AgentEntry>,
    r: AgentRecord,
    index: int,
    next: Fold,
    lead: int,
)
    requires
        tracking_ready(f, sc, entries, lead),
        r.data is ModelAttemptCompleted,
        record_step(f, sc, entries, r, index) == Ok::<Fold, CorruptionView>(next),
    ensures
        statuses_fit(next.state),
        calls_tracked(next, sc),
{
    let st = f.state;
    let ta = st.tool_attempts;
    let ctx = st.context_entry_ids;
    let id = r.data->ModelAttemptCompleted_assistant_entry_id;
    lemma_entry_by_id(sc, entries, id);
    let e = entry_by_id(sc, entries, id)->0;
    let p = ctx.len() as int;
    assert(e == entries[p]);
    assert(e.id == id);
    let pend2 = next.state.pending_tool_calls;
    assert(pend2 == calls_at(entries, p));
    assert(next.state.tool_attempts == ta);
    assert(next.state.tool_preparations == st.tool_preparations);
    assert(next.state.context_entry_ids == ctx.push(e.id));
    assert forall|x: AgentEntryId| #[trigger] ctx.contains(x) implies next.state.context_entry_ids.contains(x) by {
        let q = choose|q: int| 0 <= q < ctx.len() && ctx[q] == x;
        assert(next.state.context_entry_ids[q] == x);
    }
    assert(next.state.context_entry_ids[p] == e.id);
    assert forall|i: int, j: int|
        #![trigger ta[i].1[j]]
        0 <= i < ta.len() && 0 <= j < ta[i].1.len() && attempt_settled(ta[i].1[j].status)
        implies !pend2.contains(ta[i].0) by {
        let k = ta[i].0;
        assert(defined_in_context(sc, ctx, ta[i].0));
        let d = assoc_get(sc.definitions, k)->0;
        if pend2.contains(k) {
            let m = choose|m: int| 0 <= m < pend2.len() && pend2[m] == k;
            assert(calls_at(entries, p)[m] == k);
            assert(assoc_get(sc.definitions, calls_at(entries, p)[m]) == Some(entries[p].id));
            let q = choose|q: int| 0 <= q < ctx.len() && ctx[q] == d;
            assert(ctx[q] == entries[q].id);
            assert(entries[q].id != entries[p].id);
        }
    }
    assert forall|k1: int, k2: int| 0 <= k1 < k2 < pend2.len() implies #[trigger] pend2[k1] != #[trigger] pend2[k2] by {
        assert(calls_at(entries, p)[k1] != calls_at(entries, p)[k2]);
    }
    assert(calls_tracked(next, sc));
}

#[verifier::rlimit(80)]
proof fn lemma_other_keeps_tracking(
    f: Fold,
    sc: EntryScan,
    entries: Seq<AgentEntry>,
    r: AgentRecord,
    index: int,
    next: Fold,
    lead: int,
)
    requires
        tracking_ready(f, sc, entries, lead),
        r.data is ModelAttemptStarted || r.data is ModelAttemptInterrupted || r.data is TurnCommitted
            || r.data is AgentResultCommitted,
        record_step(f, sc, entries, r, index) == Ok::<Fold, CorruptionView>(next),
    ensures
        statuses_fit(next.state),
        calls_tracked(next, sc),
{
    assert(next.state.tool_attempts == f.state.tool_attempts);
    assert(next.state.tool_preparations == f.state.tool_preparations);
    assert(next.state.context_entry_ids == f.state.context_entry_ids);
    assert(next.seen == f.seen);
}

/// One accepted record keeps statuses agreeing with preparations, and the
/// tracking that guarantees it.
proof fn lemma_step_keeps_tracking(
    f: Fold,
    sc: EntryScan,
    entries: Seq<AgentEntry>,
    r: AgentRecord,
    index: int,
    next: Fold,
    lead: int,
)
    requires
        tracking_ready(f, sc, entries, lead),
        record_step(f, sc, entries, r, index) == Ok::<Fold, CorruptionView>(next),
    ensures
        tracking_ready(next, sc, entries, lead),
{
    lemma_step_keeps_context(f, sc, entries, r, index, next, lead);
    match r.data {
        AgentRecordData::ToolAttemptStarted { .. } => lemma_started_keeps_tracking(
            f,
            sc,
            entries,
            r,
            index,
            next,
            lead,
        ),
        AgentRecordData::ToolCallPrepared { .. } => lemma_prepared_keeps_tracking(
            f,
            sc,
            entries,
            r,
            index,
            next,
            lead,
        ),
        AgentRecordData::ModelAttemptCompleted { .. } => lemma_model_completed_keeps_tracking(
            f,
            sc,
            entries,
            r,
            index,
            next,
            lead,
        ),
        AgentRecordData::ToolAttemptRejected { .. } | AgentRecordData::ToolAttemptDenied { .. }
        | AgentRecordData::ToolAttemptCompleted { .. } => lemma_finish_keeps_tracking(
            f,
            sc,
            entries,
            r,
            index,
            next,
            lead,
        ),
        AgentRecordData::ToolEffectStarted { .. } | AgentRecordData::ToolEffectCompleted { .. }
        | AgentRecordData::ToolAttemptInterrupted { .. }
        | AgentRecordData::ToolAttemptIntervention { .. } => lemma_effect_keeps_tracking(
            f,
            sc,
            entries,
            r,
            index,
            next,
            lead,
        ),
        _ => lemma_other_keeps_tracking(f, sc, entries, r, index, next, lead),
    }
}

proof fn lemma_fold_keeps_tracking(
    f: Fold,
    sc: EntryScan,
    entries: Seq<AgentEntry>,
    records: Seq<AgentRecord>,
    i: int,
    lead: int,
)
    requires
        0 <= i <= records.len(),
        tracking_ready(f, sc, entries, lead),
    ensures
        fold_records_from(f, sc, entries, records, i) matches Ok(g) ==> statuses_fit(g.state),
    decreases records.len() - i,
{
    if i < records.len() {
        match record_step(f, sc, entries, records[i], i) {
            Ok(next) => {
                lemma_step_keeps_tracking(f, sc, entries, records[i], i, next, lead);
                lemma_fold_keeps_tracking(next, sc, entries, records, i + 1, lead);
            },
            Err(_) => {},
        }
    }
}

/// In every recovered state, each tool attempt's status agrees with its
/// call's preparation: a rejection names the stage at which preparation
/// failed and never the policy stage, a denial follows a policy failure, a
/// completion follows an executable preparation (each where a preparation
/// is held), and an attempt whose effect started or completed has an
/// executable preparation.
pub proof fn lemma_recovered_statuses_fit(
    run_id: AgentRunId,
    entries: Seq<AgentEntry>,
    records: Seq<AgentRecord>,
)
    requires
        entries.len() <= usize::MAX,
    ensures
        reduce_history(run_id, entries, records) matches Ok(st) ==> statuses_fit(st),
{
    assert(scan_knows(empty_scan(), entries, 0));
    lemma_scan_knows(empty_scan(), run_id, entries, 0);
    lemma_scan_defines(empty_scan(), run_id, entries, 0);
    match scan_entries_from(empty_scan(), run_id, entries, 0) {
        Ok(sc) => {
            let f0 = initial_fold(run_id, sc.context);
            let lead = sc.context.len() as int;
            assert forall|x: AgentEntryId| #[trigger] f0.finalized.contains(x) implies f0.state.context_entry_ids.contains(x) by {}
            assert(context_follows_entries(f0, entries, lead));
            assert(tracking_ready(f0, sc, entries, lead));
            lemma_fold_keeps_tracking(f0, sc, entries, records, 0, lead);
        },
        Err(_) => {},
    }
}

/// A count capped at the largest `u64`.
pub open spec fn capped(n: int) -> u64 {
    if n > u64::MAX {
        u64::MAX
    } else {
        n as u64
    }
}

/// Two usages added counter by counter, each sum capped.
pub open spec fn usage_plus(a: ModelUsage, b: ModelUsage) -> ModelUsage {
    ModelUsage {
        input_tokens: capped(a.input_tokens + b.input_tokens),
        output_tokens: capped(a.output_tokens + b.output_tokens),
        cache_read_input_tokens: capped(a.cache_read_input_tokens + b.cache_read_input_tokens),
        cache_write_input_tokens: capped(a.cache_write_input_tokens + b.cache_write_input_tokens),
    }
}

/// The first entry, from index `i` on, whose id is `id`.
pub open spec fn entry_with_id(entries: Seq<AgentEntry>, id: AgentEntryId, i: int) -> Option<AgentEntry>
    decreases entries.len() - i,
{
    if i < 0 || i >= entries.len() {
        None
    } else if entries[i].id == id {
        Some(entries[i])
    } else {
        entry_with_id(entries, id, i + 1)
    }
}

/// The usage a record brings: that of the assistant message whose model
/// attempt it completes.
pub open spec fn record_usage(entries: Seq<AgentEntry>, d: AgentRecordData) -> Option<ModelUsage> {
    match d {
        AgentRecordData::ModelAttemptCompleted { assistant_entry_id, .. } => match entry_with_id(
            entries,
            assistant_entry_id,
            0,
        ) {
            Some(e) => match e.data {
                AgentEntryData::AssistantMessage { message, .. } => message.usage,
                _ => None,
            },
            None => None,
        },
        _ => None,
    }
}

/// The usage of the first `n` records summed, in order.
pub open spec fn usage_through(entries: Seq<AgentEntry>, records: Seq<AgentRecord>, n: int) -> ModelUsage
    decreases n,
{
    if n <= 0 {
        ModelUsage {
            input_tokens: 0,
            output_tokens: 0,
            cache_read_input_tokens: 0,
            cache_write_input_tokens: 0,
        }
    } else {
        let before = usage_through(entries, records, n - 1);
        match record_usage(entries, records[n - 1].data) {
            Some(u) => usage_plus(before, u),
            None => before,
        }
    }
}

proof fn lemma_entry_by_id_is_first(sc: EntryScan, entries: Seq<AgentEntry>, id: AgentEntryId, i: int)
    requires
        0 <= i <= entries.len(),
        entries.len() <= usize::MAX,
        scan_knows(sc, entries, entries.len() as int),
    ensures
        crate::idmap::assoc_index_from(sc.by_id, id, i) matches Some(k) ==> entry_with_id(entries, id, i)
            == Some(entries[k]),
        crate::idmap::assoc_index_from(sc.by_id, id, i) is None ==> entry_with_id(entries, id, i) is None,
    decreases entries.len() - i,
{
    if i < entries.len() {
        assert(sc.by_id[i] == (entries[i].id, i as usize));
        lemma_entry_by_id_is_first(sc, entries, id, i + 1);
    }
}

#[verifier::rlimit(60)]
proof fn lemma_fold_sums_usage(
    f: Fold,
    sc: EntryScan,
    entries: Seq<AgentEntry>,
    records: Seq<AgentRecord>,
    i: int,
)
    requires
        0 <= i <= records.len(),
        entries.len() <= usize::MAX,
        scan_knows(sc, entries, entries.len() as int),
        f.state.usage == usage_through(entries, records, i),
    ensures
        fold_records_from(f, sc, entries, records, i) matches Ok(g) ==> g.state.usage == usage_through(
            entries,
            records,
            records.len() as int,
        ),
    decreases records.len() - i,
{
    if i < records.len() {
        match record_step(f, sc, entries, records[i], i) {
            Ok(next) => {
                if let AgentRecordData::ModelAttemptCompleted { assistant_entry_id, .. } = records[i].data {
                    lemma_entry_by_id_is_first(sc, entries, assistant_entry_id, 0);
                    lemma_assoc_index_from_range(sc.by_id, assistant_entry_id, 0);
                    if let Some(k) = assoc_index(sc.by_id, assistant_entry_id) {
                        assert(sc.by_id[k] == (entries[k].id, k as usize));
                    }
                    assert(entry_with_id(entries, assistant_entry_id, 0) == entry_by_id(
                        sc,
                        entries,
                        assistant_entry_id,
                    ));
                }
                assert(next.state.usage == usage_through(entries, records, i + 1));
                lemma_fold_sums_usage(next, sc, entries, records, i + 1);
            },
            Err(_) => {},
        }
    }
}

/// A recovered run's usage is the capped sum, in record order, of the usage
/// of every assistant message whose model attempt completed in the history.
pub proof fn lemma_recovered_usage(
    run_id: AgentRunId,
    entries: Seq<AgentEntry>,
    records: Seq<AgentRecord>,
)
    requires
        entries.len() <= usize::MAX,
    ensures
        reduce_history(run_id, entries, records) matches Ok(st) ==> st.usage == usage_through(
            entries,
            records,
            records.len() as int,
        ),
{
    assert(scan_knows(empty_scan(), entries, 0));
    lemma_scan_knows(empty_scan(), run_id, entries, 0);
    match scan_entries_from(empty_scan(), run_id, entries, 0) {
        Ok(sc) => lemma_fold_sums_usage(initial_fold(run_id, sc.context), sc, entries, records, 0),
        Err(_) => {},
    }
}

} // verus!
