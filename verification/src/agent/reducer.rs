//! The recovery reducer: it replays a durable Agent history and returns the
//! state the run stands in, or the first corruption the history shows.

use crate::agent::grammar::{
    attempt_call, attempt_check, attempt_pos, attempt_status, call_of_attempt, define_calls,
    add_usage, empty_scan, entry_by_id, failed_stage, finish_step, first_orphan, fold_records_from,
    initial_fold, initial_state, model_bits, model_completed_step, model_interrupted_step,
    model_started_step, tool_started_step, tool_prepared_step, effect_started_step,
    effect_completed_step, tool_interrupted_step, intervention_step, other_calls,
    turn_committed_step, result_committed_step, phase_check, record_step, reduce_history,
    scan_entries_from, scan_entry, set_attempt_status, set_model_status, settled_status,
    settlement_fits, settlement_allowed, settle_phase_check, effect_awaits_result, tool_bits,
    EntryScan, Fold, Settlement,
};
use crate::agent::history::{
    logical_calls_of, AgentEntry, AgentEntryData, AgentRecord, AgentRecordData,
    AgentTerminalResult, DurableAssistantMessage, ToolEffectResult,
};
use crate::agent::state::{
    attempts_view, AgentPhase, AgentRecoveryState, CorruptionError, CorruptionView,
    ModelAttemptState, ModelAttemptStatus, RecoveryView, ToolAttemptState, ToolAttemptStatus,
    ToolCallPreparation,
};
use crate::idmap::{assoc_get, assoc_index, assoc_index_from, assoc_insert, lemma_assoc_index_from_range, IdMap};
use crate::ids::{uuid_text, AgentEntryId, AgentRunId, LogicalToolCallId, ModelAttemptId, ToolAttemptId};
use crate::provider::{ModelUsage, ToolCallId};
use crate::tools::disposition::{ToolPreparationDisposition, ToolPreparationStage};
use vstd::prelude::*;

verus! {

/// The entry scan held at run time.
struct Scan {
    by_id: IdMap<AgentEntryId, usize>,
    definitions: IdMap<LogicalToolCallId, AgentEntryId>,
    results: IdMap<LogicalToolCallId, AgentEntryId>,
    user_prefix: bool,
    context: Vec<AgentEntryId>,
}

impl View for Scan {
    type V = EntryScan;

    closed spec fn view(&self) -> EntryScan {
        EntryScan {
            by_id: self.by_id@,
            definitions: self.definitions@,
            results: self.results@,
            user_prefix: self.user_prefix,
            context: self.context@,
        }
    }
}

/// Every position the scan recorded names an entry.
spec fn positions_in(sc: EntryScan, n: int) -> bool {
    forall|k: int| 0 <= k < sc.by_id.len() ==> (#[trigger] sc.by_id[k]).1 < n
}

/// The calls of one assistant message added to the definitions.
fn define_message_calls(
    defs: &mut IdMap<LogicalToolCallId, AgentEntryId>,
    message: &DurableAssistantMessage,
    entry_id: AgentEntryId,
) -> (r: Result<(), CorruptionError>)
    ensures
        match r {
            Ok(()) => define_calls(old(defs)@, logical_calls_of(message.content@), entry_id, 0)
                == Ok::<Seq<(LogicalToolCallId, AgentEntryId)>, CorruptionView>(final(defs)@),
            Err(e) => define_calls(old(defs)@, logical_calls_of(message.content@), entry_id, 0)
                == Err::<Seq<(LogicalToolCallId, AgentEntryId)>, CorruptionView>(e@),
        },
{
    let calls = message.tool_call_ids();
    let mut i: usize = 0;
    while i < calls.len()
        invariant
            0 <= i <= calls@.len(),
            calls@ == logical_calls_of(message.content@),
            define_calls(old(defs)@, calls@, entry_id, 0) == define_calls(
                defs@,
                calls@,
                entry_id,
                i as int,
            ),
        decreases calls.len() - i,
    {
        let call = calls[i];
        if defs.contains_key(&call) {
            return Err(CorruptionError::DuplicateLogicalToolCall(call));
        }
        defs.insert(call, entry_id);
        i = i + 1;
    }
    Ok(())
}

/// Entry `index` applied to the scan.
fn scan_one(sc: &mut Scan, run_id: AgentRunId, e: &AgentEntry, index: usize) -> (r: Result<
    (),
    CorruptionError,
>)
    requires
        index < u64::MAX,
    ensures
        match r {
            Ok(()) => scan_entry(old(sc)@, run_id, *e, index as int) == Ok::<
                EntryScan,
                CorruptionView,
            >(final(sc)@),
            Err(err) => scan_entry(old(sc)@, run_id, *e, index as int) == Err::<
                EntryScan,
                CorruptionView,
            >(err@),
        },
        final(sc)@.by_id.len() <= old(sc)@.by_id.len() + 1,
        forall|k: int|
            0 <= k < old(sc)@.by_id.len() ==> #[trigger] final(sc)@.by_id[k] == old(sc)@.by_id[k],
        final(sc)@.by_id.len() == old(sc)@.by_id.len() + 1 ==> final(sc)@.by_id.last().1 == index,
{
    let expected: u64 = index as u64 + 1;
    if e.ordinal != expected {
        return Err(CorruptionError::EntryOrdinal { expected, actual: e.ordinal });
    }
    if e.run_id != run_id {
        return Err(CorruptionError::RunMismatch { expected: run_id, actual: e.run_id });
    }
    if sc.by_id.contains_key(&e.id) {
        return Err(CorruptionError::DuplicateEntryId(e.id));
    }
    sc.by_id.insert(e.id, index);
    match &e.data {
        AgentEntryData::UserInput { .. } => {
            if !sc.user_prefix {
                return Err(CorruptionError::UserInputAfterGeneratedContext);
            }
            sc.context.push(e.id);
            Ok(())
        },
        AgentEntryData::AssistantMessage { message, .. } => {
            let res = define_message_calls(&mut sc.definitions, message, e.id);
            match res {
                Ok(()) => {
                    sc.user_prefix = false;
                    Ok(())
                },
                Err(err) => Err(err),
            }
        },
        AgentEntryData::ModelVisibleToolResult { logical_call_id, .. } => {
            if sc.results.contains_key(logical_call_id) {
                return Err(CorruptionError::DuplicateLogicalToolResult(*logical_call_id));
            }
            sc.results.insert(*logical_call_id, e.id);
            sc.user_prefix = false;
            Ok(())
        },
    }
}

/// All entries applied to an empty scan.
fn scan_all(run_id: AgentRunId, entries: &[AgentEntry]) -> (r: Result<Scan, CorruptionError>)
    requires
        entries@.len() < u64::MAX,
    ensures
        match r {
            Ok(sc) => scan_entries_from(empty_scan(), run_id, entries@, 0) == Ok::<
                EntryScan,
                CorruptionView,
            >(sc@) && positions_in(sc@, entries@.len() as int),
            Err(err) => scan_entries_from(empty_scan(), run_id, entries@, 0) == Err::<
                EntryScan,
                CorruptionView,
            >(err@),
        },
{
    let mut sc = Scan {
        by_id: IdMap::new(),
        definitions: IdMap::new(),
        results: IdMap::new(),
        user_prefix: true,
        context: Vec::new(),
    };
    proof {
        assert(sc@ == empty_scan());
    }
    let mut i: usize = 0;
    while i < entries.len()
        invariant
            0 <= i <= entries@.len(),
            entries@.len() < u64::MAX,
            scan_entries_from(empty_scan(), run_id, entries@, 0) == scan_entries_from(
                sc@,
                run_id,
                entries@,
                i as int,
            ),
            positions_in(sc@, i as int),
        decreases entries.len() - i,
    {
        let ghost before = sc@;
        let res = scan_one(&mut sc, run_id, &entries[i], i);
        match res {
            Ok(()) => {},
            Err(err) => {
                return Err(err);
            },
        }
        proof {
            assert forall|k: int| 0 <= k < sc@.by_id.len() implies (#[trigger] sc@.by_id[k]).1 < i
                + 1 by {
                if k < before.by_id.len() {
                    assert(sc@.by_id[k] == before.by_id[k]);
                }
            }
        }
        i = i + 1;
    }
    Ok(sc)
}

/// What the reducer carries across records, held at run time.
struct Work {
    state: AgentRecoveryState,
    finalized: Vec<AgentEntryId>,
    turn_results: Vec<AgentEntryId>,
    seen: Vec<ToolAttemptId>,
}

impl View for Work {
    type V = Fold;

    closed spec fn view(&self) -> Fold {
        Fold {
            state: self.state@,
            finalized: self.finalized@,
            turn_results: self.turn_results@,
            seen: self.seen@,
        }
    }
}

/// The counters after `n` records: each record adds at most one.
spec fn counters_within(f: Fold, n: int) -> bool {
    &&& f.state.model_request_count <= n
    &&& f.state.next_model_request_ordinal == f.state.model_request_count + 1
    &&& f.state.turn_count <= n
    &&& f.state.next_turn_ordinal == f.state.turn_count + 1
    &&& f.state.tool_attempt_count <= n
}

/// The counters of two folds agree.
spec fn same_counters(a: Fold, b: Fold) -> bool {
    &&& a.state.model_request_count == b.state.model_request_count
    &&& a.state.next_model_request_ordinal == b.state.next_model_request_ordinal
    &&& a.state.turn_count == b.state.turn_count
    &&& a.state.next_turn_ordinal == b.state.next_turn_ordinal
    &&& a.state.tool_attempt_count == b.state.tool_attempt_count
}

fn check_phase(st: &AgentRecoveryState, expected: AgentPhase, kind: &'static str) -> (r: Result<
    (),
    CorruptionError,
>)
    ensures
        r is Ok <==> phase_check(st@, expected, kind) is None,
        r matches Err(e) ==> phase_check(st@, expected, kind) == Some(e@),
{
    if st.phase == expected {
        Ok(())
    } else {
        Err(CorruptionError::InvalidRecord { record: kind, phase: st.phase })
    }
}

/// A settlement's phase: the attempt is in flight, or its effect completed
/// and waits for its result.
fn check_settle_phase(st: &AgentRecoveryState, kind: &'static str) -> (r: Result<(), CorruptionError>)
    ensures
        r is Ok <==> settle_phase_check(st@, kind) is None,
        r matches Err(e) ==> settle_phase_check(st@, kind) == Some(e@),
{
    if st.phase == AgentPhase::ToolInFlight {
        return Ok(());
    }
    let invalid = CorruptionError::InvalidRecord { record: kind, phase: st.phase };
    if st.phase != AgentPhase::ToolResultPending {
        return Err(invalid);
    }
    let x = match st.active_tool_attempt {
        Some(x) => x,
        None => {
            return Err(invalid);
        },
    };
    match locate_attempt(&st.tool_attempts, x) {
        Some((ci, cj)) => {
            assert(attempts_view(st.tool_attempts@)[ci as int].1 == st.tool_attempts@[ci as int].1@);
            match st.tool_attempts.value_at(ci)[cj].status {
                ToolAttemptStatus::EffectCompleted { .. } => Ok(()),
                _ => Err(invalid),
            }
        },
        None => Err(invalid),
    }
}

fn check_attempt(active: Option<u128>, actual: u128) -> (r: Result<(), CorruptionError>)
    ensures
        r is Ok <==> attempt_check(active, actual) is None,
        r matches Err(e) ==> attempt_check(active, actual) == Some(e@),
{
    match active {
        Some(expected) => {
            if expected == actual {
                Ok(())
            } else {
                Err(
                    CorruptionError::AttemptMismatch {
                        expected: uuid_text(expected),
                        actual: uuid_text(actual),
                    },
                )
            }
        },
        None => Err(
            CorruptionError::AttemptMismatch { expected: "none".to_owned(), actual: uuid_text(actual) },
        ),
    }
}

fn model_attempt_bits(a: Option<ModelAttemptId>) -> (r: Option<u128>)
    ensures
        r == model_bits(a),
{
    match a {
        Some(x) => Some(x.0),
        None => None,
    }
}

fn tool_attempt_bits(a: Option<ToolAttemptId>) -> (r: Option<u128>)
    ensures
        r == tool_bits(a),
{
    match a {
        Some(x) => Some(x.0),
        None => None,
    }
}

/// The position of attempt `a` in one call's attempts.
fn attempt_index(list: &Vec<ToolAttemptState>, a: ToolAttemptId) -> (r: Option<usize>)
    ensures
        r matches Some(j) ==> attempt_pos(list@, a, 0) == Some(j as int) && j < list@.len(),
        r is None ==> attempt_pos(list@, a, 0) is None,
{
    let mut j: usize = 0;
    while j < list.len()
        invariant
            0 <= j <= list@.len(),
            attempt_pos(list@, a, 0) == attempt_pos(list@, a, j as int),
        decreases list.len() - j,
    {
        if list[j].id == a {
            return Some(j);
        }
        j = j + 1;
    }
    None
}

/// The call and position of attempt `a`.
fn locate_attempt(ta: &IdMap<LogicalToolCallId, Vec<ToolAttemptState>>, a: ToolAttemptId) -> (r:
    Option<(usize, usize)>)
    ensures
        match r {
            Some((i, j)) => {
                &&& call_of_attempt(attempts_view(ta@), a, 0) == Some(i as int)
                &&& attempt_pos(attempts_view(ta@)[i as int].1, a, 0) == Some(j as int)
                &&& i < ta@.len()
                &&& j < ta@[i as int].1@.len()
            },
            None => call_of_attempt(attempts_view(ta@), a, 0) is None,
        },
{
    let ghost v = attempts_view(ta@);
    let mut i: usize = 0;
    while i < ta.len()
        invariant
            0 <= i <= ta@.len(),
            v == attempts_view(ta@),
            v.len() == ta@.len(),
            call_of_attempt(v, a, 0) == call_of_attempt(v, a, i as int),
        decreases ta@.len() - i,
    {
        let list = ta.value_at(i);
        assert(v[i as int] == (ta@[i as int].0, ta@[i as int].1@));
        match attempt_index(list, a) {
            Some(j) => {
                return Some((i, j));
            },
            None => {},
        }
        i = i + 1;
    }
    None
}

/// Attempt `a` takes a new status.
fn set_attempt_status_at(
    ta: &mut IdMap<LogicalToolCallId, Vec<ToolAttemptState>>,
    a: ToolAttemptId,
    status: ToolAttemptStatus,
)
    ensures
        attempts_view(final(ta)@) == set_attempt_status(attempts_view(old(ta)@), a, status),
{
    match locate_attempt(ta, a) {
        Some((i, j)) => {
            let ghost v0 = attempts_view(ta@);
            let mut list = ta.replace_value_at(i, Vec::new());
            let id = list[j].id;
            let logical_call_id = list[j].logical_call_id;
            let ghost l0 = list@;
            list.set(j, ToolAttemptState { id, logical_call_id, status });
            let _ = ta.replace_value_at(i, list);
            proof {
                let k = v0[i as int].0;
                assert(list@ =~= l0.update(j as int, ToolAttemptState { status, ..l0[j as int] }));
                assert(attempts_view(ta@) =~= v0.update(
                    i as int,
                    (k, v0[i as int].1.update(j as int, ToolAttemptState { status, ..v0[i as int].1[j as int] })),
                ));
            }
        },
        None => {},
    }
}

/// Model attempt `a` takes a new status.
fn set_model_status_at(
    ma: &mut IdMap<ModelAttemptId, ModelAttemptState>,
    a: ModelAttemptId,
    status: ModelAttemptStatus,
)
    ensures
        final(ma)@ == set_model_status(old(ma)@, a, status),
{
    match ma.index_of(&a) {
        Some(i) => {
            proof {
                lemma_assoc_index_from_range(ma@, a, 0);
            }
            let cur = *ma.value_at(i);
            ma.set_value_at(i, ModelAttemptState { status, ..cur });
        },
        None => {},
    }
}

/// The entry recorded under `id`.
fn lookup_entry<'a>(sc: &Scan, entries: &'a [AgentEntry], id: AgentEntryId) -> (r: Option<
    &'a AgentEntry,
>)
    requires
        positions_in(sc@, entries@.len() as int),
    ensures
        match r {
            Some(e) => entry_by_id(sc@, entries@, id) == Some(*e),
            None => entry_by_id(sc@, entries@, id) is None,
        },
{
    match sc.by_id.get(&id) {
        Some(p) => {
            proof {
                lemma_assoc_index_from_range(sc@.by_id, id, 0);
            }
            Some(&entries[*p])
        },
        None => None,
    }
}

fn fits(s: Settlement, failed_at: Option<ToolPreparationStage>) -> (r: bool)
    ensures
        r == settlement_fits(s, failed_at),
{
    match s {
        Settlement::Completed => failed_at.is_none(),
        Settlement::Denied => match failed_at {
            Some(ToolPreparationStage::Policy) => true,
            _ => false,
        },
        Settlement::Rejected(stage) => {
            if stage == ToolPreparationStage::Policy {
                false
            } else {
                match failed_at {
                    Some(f) => f == stage,
                    None => false,
                }
            }
        },
    }
}

fn disposition_stage(d: &ToolPreparationDisposition) -> (r: Option<ToolPreparationStage>)
    ensures
        r == failed_stage(*d),
{
    match d {
        ToolPreparationDisposition::Executable { .. } => None,
        ToolPreparationDisposition::NoEffect { failed_at, .. } => Some(*failed_at),
    }
}

fn settled(s: Settlement, result_entry_id: AgentEntryId) -> (r: ToolAttemptStatus)
    ensures
        r == settled_status(s, result_entry_id),
{
    match s {
        Settlement::Completed => ToolAttemptStatus::Completed { result_entry_id },
        Settlement::Denied => ToolAttemptStatus::Denied { result_entry_id },
        Settlement::Rejected(failed_at) => ToolAttemptStatus::Rejected { result_entry_id, failed_at },
    }
}

/// A tool attempt settling with its model-visible result entry.
fn finish_attempt(
    w: &mut Work,
    sc: &Scan,
    entries: &[AgentEntry],
    a: ToolAttemptId,
    result_entry_id: AgentEntryId,
    s: Settlement,
    kind: &'static str,
) -> (r: Result<(), CorruptionError>)
    requires
        positions_in(sc@, entries@.len() as int),
    ensures
        match r {
            Ok(()) => finish_step(old(w)@, sc@, entries@, a, result_entry_id, s, kind) == Ok::<
                Fold,
                CorruptionView,
            >(final(w)@),
            Err(e) => finish_step(old(w)@, sc@, entries@, a, result_entry_id, s, kind) == Err::<
                Fold,
                CorruptionView,
            >(e@),
        },
        r is Ok ==> same_counters(old(w)@, final(w)@),
        r is Err ==> final(w)@ == old(w)@,
{
    if let Err(e) = check_settle_phase(&w.state, kind) {
        return Err(e);
    }
    if let Err(e) = check_attempt(tool_attempt_bits(w.state.active_tool_attempt), a.0) {
        return Err(e);
    }
    let ci = match locate_attempt(&w.state.tool_attempts, a) {
        Some((i, _)) => i,
        None => {
            return Err(CorruptionError::UnknownToolAttempt(a));
        },
    };
    let call = w.state.tool_attempts.key_at(ci);
    assert(attempts_view(w.state.tool_attempts@)[ci as int].0 == call);
    match w.state.tool_preparations.get(&call) {
        Some(prep) => {
            if prep.result_entry_id != result_entry_id {
                return Err(
                    CorruptionError::ReservedResultMismatch {
                        attempt_id: a,
                        expected: prep.result_entry_id,
                        actual: result_entry_id,
                    },
                );
            }
            if !fits(s, disposition_stage(&prep.disposition)) {
                return Err(CorruptionError::WrongNoEffectRecord(a));
            }
        },
        None => {
            if let Settlement::Rejected(ToolPreparationStage::Policy) = s {
                return Err(CorruptionError::WrongNoEffectRecord(a));
            }
        },
    }
    let entry = match lookup_entry(sc, entries, result_entry_id) {
        Some(e) => e,
        None => {
            set_attempt_status_at(&mut w.state.tool_attempts, a, settled(s, result_entry_id));
            w.state.phase = AgentPhase::ToolResultPending;
            return Ok(());
        },
    };
    match &entry.data {
        AgentEntryData::ModelVisibleToolResult {
            logical_call_id: entry_call,
            attempt_id: entry_attempt,
            ..
        } => {
            if *entry_call != call || *entry_attempt != a {
                return Err(
                    CorruptionError::ToolResultMismatch {
                        entry_id: result_entry_id,
                        attempt_id: a,
                        logical_call_id: call,
                    },
                );
            }
            if w.state.completed_tool_results.contains_key(&call) {
                return Err(CorruptionError::DuplicateLogicalToolResult(call));
            }
            let context_len = w.state.context_entry_ids.len();
            if entry.ordinal as u128 != context_len as u128 + 1 {
                return Err(CorruptionError::ContextOrder(entry.id));
            }
            w.state.context_entry_ids.push(entry.id);
            w.finalized.push(result_entry_id);
            w.state.completed_tool_results.insert(call, result_entry_id);
            w.turn_results.push(result_entry_id);
            set_attempt_status_at(&mut w.state.tool_attempts, a, settled(s, result_entry_id));
            w.state.active_tool_attempt = None;
            if w.state.pending_tool_calls.len() > 0 {
                let _ = w.state.pending_tool_calls.remove(0);
            }
            if w.state.pending_tool_calls.len() == 0 {
                w.state.phase = AgentPhase::ReadyToCommitTurn;
            } else {
                w.state.phase = AgentPhase::ToolsPending;
            }
            Ok(())
        },
        _ => Err(
            CorruptionError::ToolResultMismatch {
                entry_id: result_entry_id,
                attempt_id: a,
                logical_call_id: call,
            },
        ),
    }
}

/// Counters summed without overflow, saturating.
fn add_usage_exec(a: ModelUsage, b: ModelUsage) -> (r: ModelUsage)
    ensures
        r == add_usage(a, b),
{
    ModelUsage {
        input_tokens: a.input_tokens.saturating_add(b.input_tokens),
        output_tokens: a.output_tokens.saturating_add(b.output_tokens),
        cache_read_input_tokens: a.cache_read_input_tokens.saturating_add(b.cache_read_input_tokens),
        cache_write_input_tokens: a.cache_write_input_tokens.saturating_add(
            b.cache_write_input_tokens,
        ),
    }
}

/// Whether attempt `a` was started before.
fn seen_attempt(seen: &Vec<ToolAttemptId>, a: ToolAttemptId) -> (r: bool)
    ensures
        r == seen@.contains(a),
{
    let mut i: usize = 0;
    while i < seen.len()
        invariant
            0 <= i <= seen@.len(),
            forall|k: int| 0 <= k < i ==> seen@[k] != a,
        decreases seen.len() - i,
    {
        if seen[i] == a {
            return true;
        }
        i = i + 1;
    }
    false
}

/// Looking a key up in the attempts' view finds the same position.
proof fn lemma_attempts_view_index(
    s: Seq<(LogicalToolCallId, Vec<ToolAttemptState>)>,
    k: LogicalToolCallId,
    i: int,
)
    requires
        0 <= i,
    ensures
        assoc_index_from(attempts_view(s), k, i) == assoc_index_from(s, k, i),
    decreases s.len() - i,
{
    if i < s.len() {
        assert(attempts_view(s)[i].0 == s[i].0);
        lemma_attempts_view_index(s, k, i + 1);
    }
}

fn on_model_started(w: &mut Work, attempt_id: ModelAttemptId, request_ordinal: u64, kind: &'static str, n: usize) -> (r: Result<(), CorruptionError>)
    requires
        counters_within(old(w)@, n as int),
        n + 1 < u64::MAX,
    ensures
        match r {
            Ok(()) => model_started_step(old(w)@, attempt_id, request_ordinal, kind) == Ok::<Fold, CorruptionView>(final(w)@),
            Err(e) => model_started_step(old(w)@, attempt_id, request_ordinal, kind) == Err::<Fold, CorruptionView>(e@),
        },
        r is Ok ==> counters_within(final(w)@, n + 1),
{
    if let Err(e) = check_phase(&w.state, AgentPhase::ReadyForModel, kind) {
        return Err(e);
    }
    if w.state.model_attempts.contains_key(&attempt_id) {
        return Err(CorruptionError::DuplicateModelAttempt(attempt_id));
    }
    if request_ordinal != w.state.next_model_request_ordinal {
        return Err(
            CorruptionError::ModelRequestOrdinal {
                expected: w.state.next_model_request_ordinal,
                actual: request_ordinal,
            },
        );
    }
    w.state.model_attempts.insert(
        attempt_id,
        ModelAttemptState { id: attempt_id, request_ordinal, status: ModelAttemptStatus::Started },
    );
    w.state.active_model_attempt = Some(attempt_id);
    w.state.last_model_attempt = Some(attempt_id);
    w.state.next_model_request_ordinal = w.state.next_model_request_ordinal + 1;
    w.state.model_request_count = w.state.model_request_count + 1;
    w.state.phase = AgentPhase::ModelInFlight;
    Ok(())
}

fn on_model_interrupted(w: &mut Work, attempt_id: ModelAttemptId, kind: &'static str) -> (r: Result<(), CorruptionError>)
    ensures
        match r {
            Ok(()) => model_interrupted_step(old(w)@, attempt_id, kind) == Ok::<Fold, CorruptionView>(final(w)@),
            Err(e) => model_interrupted_step(old(w)@, attempt_id, kind) == Err::<Fold, CorruptionView>(e@),
        },
        r is Ok ==> same_counters(old(w)@, final(w)@),
{
    if let Err(e) = check_phase(&w.state, AgentPhase::ModelInFlight, kind) {
        return Err(e);
    }
    if let Err(e) = check_attempt(model_attempt_bits(w.state.active_model_attempt), attempt_id.0) {
        return Err(e);
    }
    set_model_status_at(&mut w.state.model_attempts, attempt_id, ModelAttemptStatus::Interrupted);
    w.state.active_model_attempt = None;
    w.state.phase = AgentPhase::ReadyForModel;
    Ok(())
}

fn on_model_completed(
    w: &mut Work,
    sc: &Scan,
    entries: &[AgentEntry],
    attempt_id: ModelAttemptId,
    assistant_entry_id: AgentEntryId,
    kind: &'static str,
) -> (r: Result<(), CorruptionError>)
    requires
        positions_in(sc@, entries@.len() as int),
    ensures
        match r {
            Ok(()) => model_completed_step(old(w)@, sc@, entries@, attempt_id, assistant_entry_id, kind) == Ok::<Fold, CorruptionView>(final(w)@),
            Err(e) => model_completed_step(old(w)@, sc@, entries@, attempt_id, assistant_entry_id, kind) == Err::<Fold, CorruptionView>(e@),
        },
        r is Ok ==> same_counters(old(w)@, final(w)@),
{
    if let Err(e) = check_phase(&w.state, AgentPhase::ModelInFlight, kind) {
        return Err(e);
    }
    if let Err(e) = check_attempt(model_attempt_bits(w.state.active_model_attempt), attempt_id.0) {
        return Err(e);
    }
    let entry = match lookup_entry(sc, entries, assistant_entry_id) {
        Some(e) => e,
        None => {
            return Err(CorruptionError::UnknownEntry(assistant_entry_id));
        },
    };
    match &entry.data {
        AgentEntryData::AssistantMessage { attempt_id: entry_attempt, message } => {
            if *entry_attempt != attempt_id {
                return Err(
                    CorruptionError::AssistantAttemptMismatch { entry_id: assistant_entry_id, attempt_id },
                );
            }
            let context_len = w.state.context_entry_ids.len();
            if entry.ordinal as u128 != context_len as u128 + 1 {
                return Err(CorruptionError::ContextOrder(entry.id));
            }
            let pending = message.tool_call_ids();
            w.state.context_entry_ids.push(entry.id);
            set_model_status_at(
                &mut w.state.model_attempts,
                attempt_id,
                ModelAttemptStatus::Completed { assistant_entry_id },
            );
            w.state.active_model_attempt = None;
            w.state.current_assistant_entry = Some(assistant_entry_id);
            match message.usage {
                Some(u) => {
                    w.state.usage = add_usage_exec(w.state.usage, u);
                },
                None => {},
            }
            let no_calls = pending.len() == 0;
            w.state.pending_tool_calls = pending;
            if no_calls {
                w.state.phase = AgentPhase::ReadyToCommitResult;
            } else {
                w.state.phase = AgentPhase::ToolsPending;
            }
            w.finalized.push(entry.id);
            w.turn_results = Vec::new();
            Ok(())
        },
        _ => Err(CorruptionError::AssistantAttemptMismatch { entry_id: assistant_entry_id, attempt_id }),
    }
}

fn on_tool_started(
    w: &mut Work,
    sc: &Scan,
    attempt_id: ToolAttemptId,
    logical_call_id: LogicalToolCallId,
    kind: &'static str,
    n: usize,
) -> (r: Result<(), CorruptionError>)
    requires
        counters_within(old(w)@, n as int),
        n + 1 < u64::MAX,
    ensures
        match r {
            Ok(()) => tool_started_step(old(w)@, sc@, attempt_id, logical_call_id, kind) == Ok::<Fold, CorruptionView>(final(w)@),
            Err(e) => tool_started_step(old(w)@, sc@, attempt_id, logical_call_id, kind) == Err::<Fold, CorruptionView>(e@),
        },
        r is Ok ==> counters_within(final(w)@, n + 1),
{
    if let Err(e) = check_phase(&w.state, AgentPhase::ToolsPending, kind) {
        return Err(e);
    }
    if seen_attempt(&w.seen, attempt_id) {
        return Err(CorruptionError::DuplicateToolAttempt(attempt_id));
    }
    if w.state.pending_tool_calls.len() == 0 {
        return Err(CorruptionError::UnknownLogicalToolCall(logical_call_id));
    }
    let first = w.state.pending_tool_calls[0];
    if first != logical_call_id {
        return Err(CorruptionError::ToolSourceOrder { expected: first, actual: logical_call_id });
    }
    let defined_here = match sc.definitions.get(&logical_call_id) {
        Some(def) => match w.state.current_assistant_entry {
            Some(current) => *def == current,
            None => false,
        },
        None => false,
    };
    if !defined_here {
        return Err(CorruptionError::UnknownLogicalToolCall(logical_call_id));
    }
    let attempt = ToolAttemptState { id: attempt_id, logical_call_id, status: ToolAttemptStatus::Started };
    let ghost ta0 = w.state.tool_attempts@;
    proof {
        lemma_attempts_view_index(ta0, logical_call_id, 0);
        lemma_assoc_index_from_range(ta0, logical_call_id, 0);
    }
    match w.state.tool_attempts.index_of(&logical_call_id) {
        Some(i) => {
            let mut list = w.state.tool_attempts.replace_value_at(i, Vec::new());
            list.push(attempt);
            let _ = w.state.tool_attempts.replace_value_at(i, list);
            proof {
                assert(attempts_view(w.state.tool_attempts@) =~= attempts_view(ta0).update(
                    i as int,
                    (logical_call_id, attempts_view(ta0)[i as int].1.push(attempt)),
                ));
            }
        },
        None => {
            let mut list: Vec<ToolAttemptState> = Vec::new();
            list.push(attempt);
            w.state.tool_attempts.insert(logical_call_id, list);
            proof {
                assert(attempts_view(w.state.tool_attempts@) =~= attempts_view(ta0).push(
                    (logical_call_id, Seq::<ToolAttemptState>::empty().push(attempt)),
                ));
            }
        },
    }
    w.state.active_tool_attempt = Some(attempt_id);
    w.state.tool_attempt_count = w.state.tool_attempt_count + 1;
    w.state.phase = AgentPhase::ToolInFlight;
    w.seen.push(attempt_id);
    Ok(())
}

fn on_tool_prepared(
    w: &mut Work,
    attempt_id: ToolAttemptId,
    logical_call_id: LogicalToolCallId,
    assistant_entry_id: AgentEntryId,
    source_index: u32,
    provider_call_id: &ToolCallId,
    requested_tool_name: &String,
    result_entry_id: AgentEntryId,
    disposition: &ToolPreparationDisposition,
    kind: &'static str,
) -> (r: Result<(), CorruptionError>)
    ensures
        match r {
            Ok(()) => tool_prepared_step(
                old(w)@,
                attempt_id,
                logical_call_id,
                assistant_entry_id,
                source_index,
                *provider_call_id,
                *requested_tool_name,
                result_entry_id,
                *disposition,
                kind,
            ) == Ok::<Fold, CorruptionView>(final(w)@),
            Err(e) => tool_prepared_step(
                old(w)@,
                attempt_id,
                logical_call_id,
                assistant_entry_id,
                source_index,
                *provider_call_id,
                *requested_tool_name,
                result_entry_id,
                *disposition,
                kind,
            ) == Err::<Fold, CorruptionView>(e@),
        },
        r is Ok ==> same_counters(old(w)@, final(w)@),
{
    if let Err(e) = check_phase(&w.state, AgentPhase::ToolInFlight, kind) {
        return Err(e);
    }
    if let Err(e) = check_attempt(tool_attempt_bits(w.state.active_tool_attempt), attempt_id.0) {
        return Err(e);
    }
    let (ci, cj) = match locate_attempt(&w.state.tool_attempts, attempt_id) {
        Some(p) => p,
        None => {
            return Err(CorruptionError::UnknownToolAttempt(attempt_id));
        },
    };
    let call = w.state.tool_attempts.key_at(ci);
    assert(attempts_view(w.state.tool_attempts@)[ci as int] == (
        call,
        w.state.tool_attempts@[ci as int].1@,
    ));
    let current_matches = match w.state.current_assistant_entry {
        Some(current) => current == assistant_entry_id,
        None => false,
    };
    if call != logical_call_id || !current_matches {
        return Err(CorruptionError::UnknownLogicalToolCall(logical_call_id));
    }
    let started = match w.state.tool_attempts.value_at(ci)[cj].status {
        ToolAttemptStatus::Started => true,
        _ => false,
    };
    if !started {
        return Err(CorruptionError::DuplicateToolPreparation(attempt_id));
    }
    let prep = ToolCallPreparation {
        assistant_entry_id,
        source_index,
        provider_call_id: provider_call_id.clone(),
        requested_tool_name: requested_tool_name.clone(),
        result_entry_id,
        disposition: disposition.clone(),
    };
    let conflict = match w.state.tool_preparations.get(&logical_call_id) {
        Some(existing) => !existing.same_as(&prep),
        None => false,
    };
    if conflict {
        return Err(CorruptionError::ToolPreparationConflict(logical_call_id));
    }
    w.state.tool_preparations.insert(logical_call_id, prep);
    set_attempt_status_at(&mut w.state.tool_attempts, attempt_id, ToolAttemptStatus::Prepared);
    Ok(())
}

fn on_effect_started(w: &mut Work, attempt_id: ToolAttemptId, kind: &'static str) -> (r: Result<
    (),
    CorruptionError,
>)
    ensures
        match r {
            Ok(()) => effect_started_step(old(w)@, attempt_id, kind) == Ok::<Fold, CorruptionView>(
                final(w)@,
            ),
            Err(e) => effect_started_step(old(w)@, attempt_id, kind) == Err::<Fold, CorruptionView>(
                e@,
            ),
        },
        r is Ok ==> same_counters(old(w)@, final(w)@),
{
    if let Err(e) = check_phase(&w.state, AgentPhase::ToolInFlight, kind) {
        return Err(e);
    }
    if let Err(e) = check_attempt(tool_attempt_bits(w.state.active_tool_attempt), attempt_id.0) {
        return Err(e);
    }
    let (ci, cj) = match locate_attempt(&w.state.tool_attempts, attempt_id) {
        Some(p) => p,
        None => {
            return Err(CorruptionError::UnknownToolAttempt(attempt_id));
        },
    };
    let call = w.state.tool_attempts.key_at(ci);
    assert(attempts_view(w.state.tool_attempts@)[ci as int] == (
        call,
        w.state.tool_attempts@[ci as int].1@,
    ));
    let executable = match w.state.tool_preparations.get(&call) {
        Some(prep) => match prep.disposition {
            ToolPreparationDisposition::Executable { .. } => true,
            _ => false,
        },
        None => false,
    };
    let prepared = match w.state.tool_attempts.value_at(ci)[cj].status {
        ToolAttemptStatus::Prepared => true,
        _ => false,
    };
    if !executable || !prepared {
        return Err(CorruptionError::EffectStartWithoutExecutable(attempt_id));
    }
    set_attempt_status_at(&mut w.state.tool_attempts, attempt_id, ToolAttemptStatus::EffectInFlight);
    Ok(())
}

fn on_effect_completed(
    w: &mut Work,
    attempt_id: ToolAttemptId,
    result: &ToolEffectResult,
    kind: &'static str,
) -> (r: Result<(), CorruptionError>)
    ensures
        match r {
            Ok(()) => effect_completed_step(old(w)@, attempt_id, *result, kind) == Ok::<
                Fold,
                CorruptionView,
            >(final(w)@),
            Err(e) => effect_completed_step(old(w)@, attempt_id, *result, kind) == Err::<
                Fold,
                CorruptionView,
            >(e@),
        },
        r is Ok ==> same_counters(old(w)@, final(w)@),
{
    if let Err(e) = check_phase(&w.state, AgentPhase::ToolInFlight, kind) {
        return Err(e);
    }
    if let Err(e) = check_attempt(tool_attempt_bits(w.state.active_tool_attempt), attempt_id.0) {
        return Err(e);
    }
    let (ci, cj) = match locate_attempt(&w.state.tool_attempts, attempt_id) {
        Some(p) => p,
        None => {
            return Err(CorruptionError::UnknownToolAttempt(attempt_id));
        },
    };
    assert(attempts_view(w.state.tool_attempts@)[ci as int].1 == w.state.tool_attempts@[ci as int].1@);
    let in_flight = match w.state.tool_attempts.value_at(ci)[cj].status {
        ToolAttemptStatus::EffectInFlight => true,
        _ => false,
    };
    if !in_flight {
        return Err(CorruptionError::EffectCompletionWithoutStart(attempt_id));
    }
    let call = w.state.tool_attempts.key_at(ci);
    assert(attempts_view(w.state.tool_attempts@)[ci as int].0 == call);
    let (result_entry_id, replay) = match w.state.tool_preparations.get(&call) {
        Some(prep) => match prep.disposition {
            ToolPreparationDisposition::Executable { replay, .. } => (prep.result_entry_id, replay),
            _ => {
                return Err(CorruptionError::EffectCompletionWithoutStart(attempt_id));
            },
        },
        None => {
            return Err(CorruptionError::EffectCompletionWithoutStart(attempt_id));
        },
    };
    set_attempt_status_at(
        &mut w.state.tool_attempts,
        attempt_id,
        ToolAttemptStatus::EffectCompleted { result_entry_id, replay, result: result.clone() },
    );
    w.state.phase = AgentPhase::ToolResultPending;
    Ok(())
}

fn on_tool_interrupted(w: &mut Work, attempt_id: ToolAttemptId, reason: &String, kind: &'static str) -> (r: Result<(), CorruptionError>)
    ensures
        match r {
            Ok(()) => tool_interrupted_step(old(w)@, attempt_id, *reason, kind) == Ok::<
                Fold,
                CorruptionView,
            >(final(w)@),
            Err(e) => tool_interrupted_step(old(w)@, attempt_id, *reason, kind) == Err::<
                Fold,
                CorruptionView,
            >(e@),
        },
        r is Ok ==> same_counters(old(w)@, final(w)@),
{
    if let Err(e) = check_phase(&w.state, AgentPhase::ToolInFlight, kind) {
        return Err(e);
    }
    if let Err(e) = check_attempt(tool_attempt_bits(w.state.active_tool_attempt), attempt_id.0) {
        return Err(e);
    }
    if locate_attempt(&w.state.tool_attempts, attempt_id).is_none() {
        return Err(CorruptionError::UnknownToolAttempt(attempt_id));
    }
    set_attempt_status_at(
        &mut w.state.tool_attempts,
        attempt_id,
        ToolAttemptStatus::Interrupted { reason: reason.clone() },
    );
    w.state.active_tool_attempt = None;
    w.state.phase = AgentPhase::ToolsPending;
    Ok(())
}

/// The pending calls other than `call`.
fn without_call(pending: &Vec<LogicalToolCallId>, call: LogicalToolCallId) -> (r: Vec<
    LogicalToolCallId,
>)
    ensures
        r@ == other_calls(pending@, call),
{
    let mut out: Vec<LogicalToolCallId> = Vec::new();
    let mut i: usize = 0;
    while i < pending.len()
        invariant
            0 <= i <= pending@.len(),
            out@ == other_calls(pending@.subrange(0, i as int), call),
        decreases pending.len() - i,
    {
        proof {
            reveal(Seq::filter);
            assert(pending@.subrange(0, i + 1).drop_last() =~= pending@.subrange(0, i as int));
        }
        if pending[i] != call {
            out.push(pending[i]);
        }
        i = i + 1;
    }
    proof {
        assert(pending@.subrange(0, pending@.len() as int) =~= pending@);
    }
    out
}

fn on_intervention(w: &mut Work, attempt_id: ToolAttemptId, reason: &String, kind: &'static str) -> (r: Result<(), CorruptionError>)
    ensures
        match r {
            Ok(()) => intervention_step(old(w)@, attempt_id, *reason, kind) == Ok::<
                Fold,
                CorruptionView,
            >(final(w)@),
            Err(e) => intervention_step(old(w)@, attempt_id, *reason, kind) == Err::<
                Fold,
                CorruptionView,
            >(e@),
        },
        r is Ok ==> same_counters(old(w)@, final(w)@),
{
    if let Err(e) = check_phase(&w.state, AgentPhase::ToolInFlight, kind) {
        return Err(e);
    }
    if let Err(e) = check_attempt(tool_attempt_bits(w.state.active_tool_attempt), attempt_id.0) {
        return Err(e);
    }
    let ci = match locate_attempt(&w.state.tool_attempts, attempt_id) {
        Some((i, _)) => i,
        None => {
            return Err(CorruptionError::UnknownToolAttempt(attempt_id));
        },
    };
    let call = w.state.tool_attempts.key_at(ci);
    assert(attempts_view(w.state.tool_attempts@)[ci as int].0 == call);
    set_attempt_status_at(
        &mut w.state.tool_attempts,
        attempt_id,
        ToolAttemptStatus::Intervention { reason: reason.clone() },
    );
    w.state.active_tool_attempt = None;
    w.state.pending_tool_calls = without_call(&w.state.pending_tool_calls, call);
    w.state.phase = AgentPhase::InterventionPending;
    Ok(())
}

/// Whether two lists of entry ids are equal.
fn same_entry_ids(a: &Vec<AgentEntryId>, b: &Vec<AgentEntryId>) -> (r: bool)
    ensures
        r == (a@ == b@),
{
    if a.len() != b.len() {
        return false;
    }
    let mut i: usize = 0;
    while i < a.len()
        invariant
            0 <= i <= a@.len(),
            a@.len() == b@.len(),
            forall|k: int| 0 <= k < i ==> a@[k] == b@[k],
        decreases a.len() - i,
    {
        if a[i] != b[i] {
            return false;
        }
        i = i + 1;
    }
    proof {
        assert(a@ =~= b@);
    }
    true
}

fn on_turn_committed(
    w: &mut Work,
    turn_ordinal: u64,
    assistant_entry_id: AgentEntryId,
    tool_result_entry_ids: &Vec<AgentEntryId>,
    kind: &'static str,
    n: usize,
) -> (r: Result<(), CorruptionError>)
    requires
        counters_within(old(w)@, n as int),
        n + 1 < u64::MAX,
    ensures
        match r {
            Ok(()) => turn_committed_step(
                old(w)@,
                turn_ordinal,
                assistant_entry_id,
                tool_result_entry_ids@,
                kind,
            ) == Ok::<Fold, CorruptionView>(final(w)@),
            Err(e) => turn_committed_step(
                old(w)@,
                turn_ordinal,
                assistant_entry_id,
                tool_result_entry_ids@,
                kind,
            ) == Err::<Fold, CorruptionView>(e@),
        },
        r is Ok ==> counters_within(final(w)@, n + 1),
{
    if let Err(e) = check_phase(&w.state, AgentPhase::ReadyToCommitTurn, kind) {
        return Err(e);
    }
    if turn_ordinal != w.state.next_turn_ordinal {
        return Err(
            CorruptionError::TurnOrdinal { expected: w.state.next_turn_ordinal, actual: turn_ordinal },
        );
    }
    let current_matches = match w.state.current_assistant_entry {
        Some(current) => current == assistant_entry_id,
        None => false,
    };
    if !current_matches {
        return Err(CorruptionError::UnknownEntry(assistant_entry_id));
    }
    if !same_entry_ids(tool_result_entry_ids, &w.turn_results) {
        return Err(CorruptionError::TurnResultOrder);
    }
    w.state.next_turn_ordinal = w.state.next_turn_ordinal + 1;
    w.state.turn_count = w.state.turn_count + 1;
    w.state.current_assistant_entry = None;
    w.state.pending_tool_calls = Vec::new();
    w.turn_results = Vec::new();
    w.state.phase = AgentPhase::ReadyForModel;
    Ok(())
}

fn on_result_committed(w: &mut Work, result: &AgentTerminalResult, kind: &'static str) -> (r: Result<
    (),
    CorruptionError,
>)
    ensures
        match r {
            Ok(()) => result_committed_step(old(w)@, *result, kind) == Ok::<Fold, CorruptionView>(
                final(w)@,
            ),
            Err(e) => result_committed_step(old(w)@, *result, kind) == Err::<Fold, CorruptionView>(
                e@,
            ),
        },
        r is Ok ==> same_counters(old(w)@, final(w)@),
{
    if w.state.active_model_attempt.is_some() || w.state.active_tool_attempt.is_some() {
        return Err(CorruptionError::InvalidRecord { record: kind, phase: w.state.phase });
    }
    match result {
        AgentTerminalResult::Succeeded { assistant_entry_id } => {
            if let Err(e) = check_phase(&w.state, AgentPhase::ReadyToCommitResult, kind) {
                return Err(e);
            }
            let current_matches = match w.state.current_assistant_entry {
                Some(current) => current == *assistant_entry_id,
                None => false,
            };
            if !current_matches {
                return Err(CorruptionError::TerminalAssistantMismatch(*assistant_entry_id));
            }
        },
        AgentTerminalResult::RequiresIntervention { .. } => {
            if let Err(e) = check_phase(&w.state, AgentPhase::InterventionPending, kind) {
                return Err(e);
            }
        },
        _ => {},
    }
    w.state.terminal_result = Some(result.clone());
    w.state.phase = AgentPhase::Terminal;
    Ok(())
}

/// One record applied to the fold.
fn apply_record(
    w: &mut Work,
    sc: &Scan,
    entries: &[AgentEntry],
    r: &AgentRecord,
    index: usize,
) -> (res: Result<(), CorruptionError>)
    requires
        positions_in(sc@, entries@.len() as int),
        counters_within(old(w)@, index as int),
        index + 1 < u64::MAX,
    ensures
        match res {
            Ok(()) => record_step(old(w)@, sc@, entries@, *r, index as int) == Ok::<
                Fold,
                CorruptionView,
            >(final(w)@),
            Err(e) => record_step(old(w)@, sc@, entries@, *r, index as int) == Err::<
                Fold,
                CorruptionView,
            >(e@),
        },
        res is Ok ==> counters_within(final(w)@, index + 1),
{
    let expected: u64 = index as u64 + 1;
    if r.sequence != expected {
        return Err(CorruptionError::RecordSequence { expected, actual: r.sequence });
    }
    if r.run_id != w.state.run_id {
        return Err(CorruptionError::RunMismatch { expected: w.state.run_id, actual: r.run_id });
    }
    let kind = r.data.kind();
    if w.state.phase == AgentPhase::Terminal {
        return Err(CorruptionError::RecordAfterTerminal(kind));
    }
    match &r.data {
        AgentRecordData::ModelAttemptStarted { attempt_id, request_ordinal } => {
            on_model_started(w, *attempt_id, *request_ordinal, kind, index)
        },
        AgentRecordData::ModelAttemptInterrupted { attempt_id, .. } => {
            on_model_interrupted(w, *attempt_id, kind)
        },
        AgentRecordData::ModelAttemptCompleted { attempt_id, assistant_entry_id } => {
            on_model_completed(w, sc, entries, *attempt_id, *assistant_entry_id, kind)
        },
        AgentRecordData::ToolAttemptStarted { attempt_id, logical_call_id } => {
            on_tool_started(w, sc, *attempt_id, *logical_call_id, kind, index)
        },
        AgentRecordData::ToolCallPrepared {
            attempt_id,
            logical_call_id,
            assistant_entry_id,
            source_index,
            provider_call_id,
            requested_tool_name,
            result_entry_id,
            disposition,
        } => on_tool_prepared(
            w,
            *attempt_id,
            *logical_call_id,
            *assistant_entry_id,
            *source_index,
            provider_call_id,
            requested_tool_name,
            *result_entry_id,
            &**disposition,
            kind,
        ),
        AgentRecordData::ToolEffectStarted { attempt_id } => on_effect_started(w, *attempt_id, kind),
        AgentRecordData::ToolEffectCompleted { attempt_id, result } => {
            on_effect_completed(w, *attempt_id, result, kind)
        },
        AgentRecordData::ToolAttemptInterrupted { attempt_id, reason } => {
            on_tool_interrupted(w, *attempt_id, reason, kind)
        },
        AgentRecordData::ToolAttemptRejected { attempt_id, result_entry_id, failed_at } => {
            finish_attempt(
                w,
                sc,
                entries,
                *attempt_id,
                *result_entry_id,
                Settlement::Rejected(*failed_at),
                kind,
            )
        },
        AgentRecordData::ToolAttemptDenied { attempt_id, result_entry_id } => {
            finish_attempt(w, sc, entries, *attempt_id, *result_entry_id, Settlement::Denied, kind)
        },
        AgentRecordData::ToolAttemptCompleted { attempt_id, result_entry_id } => {
            finish_attempt(w, sc, entries, *attempt_id, *result_entry_id, Settlement::Completed, kind)
        },
        AgentRecordData::ToolAttemptIntervention { attempt_id, reason } => {
            on_intervention(w, *attempt_id, reason, kind)
        },
        AgentRecordData::TurnCommitted { turn_ordinal, assistant_entry_id, tool_result_entry_ids } => {
            on_turn_committed(w, *turn_ordinal, *assistant_entry_id, tool_result_entry_ids, kind, index)
        },
        AgentRecordData::AgentResultCommitted { result } => on_result_committed(w, result, kind),
    }
}

/// A copy of a list of entry ids.
fn copy_entry_ids(v: &Vec<AgentEntryId>) -> (r: Vec<AgentEntryId>)
    ensures
        r@ == v@,
{
    let mut out: Vec<AgentEntryId> = Vec::new();
    let mut i: usize = 0;
    while i < v.len()
        invariant
            0 <= i <= v@.len(),
            out@ == v@.subrange(0, i as int),
        decreases v.len() - i,
    {
        out.push(v[i]);
        proof {
            assert(out@ =~= v@.subrange(0, i + 1));
        }
        i = i + 1;
    }
    proof {
        assert(v@.subrange(0, v@.len() as int) =~= v@);
    }
    out
}

/// Whether `id` is among `ids`.
fn has_entry_id(ids: &Vec<AgentEntryId>, id: AgentEntryId) -> (r: bool)
    ensures
        r == ids@.contains(id),
{
    let mut i: usize = 0;
    while i < ids.len()
        invariant
            0 <= i <= ids@.len(),
            forall|k: int| 0 <= k < i ==> ids@[k] != id,
        decreases ids.len() - i,
    {
        if ids[i] == id {
            return true;
        }
        i = i + 1;
    }
    false
}

/// Replays a durable Agent history: the entries in ordinal order and the
/// operational records in sequence order. Returns the state the run stands
/// in, or the first corruption the history shows. The laws over whole
/// histories stand in the grammar module: `lemma_recovered_statuses_fit`,
/// `lemma_recovered_counts`, `lemma_recovered_ordinals`,
/// `lemma_context_is_every_entry`, `lemma_recovered_history_well_formed`,
/// `lemma_recovered_entries_distinct`, `lemma_preparations_agree` and
/// `lemma_no_record_after_terminal`.
pub fn reduce_agent_history(
    run_id: AgentRunId,
    entries: &[AgentEntry],
    records: &[AgentRecord],
) -> (r: Result<AgentRecoveryState, CorruptionError>)
    requires
        entries@.len() < u64::MAX,
        records@.len() < u64::MAX,
    ensures
        match r {
            Ok(state) => reduce_history(run_id, entries@, records@) == Ok::<
                RecoveryView,
                CorruptionView,
            >(state@),
            Err(e) => reduce_history(run_id, entries@, records@) == Err::<
                RecoveryView,
                CorruptionView,
            >(e@),
        },
{
    let sc = match scan_all(run_id, entries) {
        Ok(sc) => sc,
        Err(e) => {
            return Err(e);
        },
    };
    let mut w = Work {
        state: AgentRecoveryState {
            run_id,
            phase: AgentPhase::ReadyForModel,
            context_entry_ids: copy_entry_ids(&sc.context),
            next_model_request_ordinal: 1,
            next_turn_ordinal: 1,
            active_model_attempt: None,
            last_model_attempt: None,
            current_assistant_entry: None,
            pending_tool_calls: Vec::new(),
            completed_tool_results: IdMap::new(),
            active_tool_attempt: None,
            model_attempts: IdMap::new(),
            tool_attempts: IdMap::new(),
            tool_preparations: IdMap::new(),
            usage: ModelUsage {
                input_tokens: 0,
                output_tokens: 0,
                cache_read_input_tokens: 0,
                cache_write_input_tokens: 0,
            },
            model_request_count: 0,
            turn_count: 0,
            tool_attempt_count: 0,
            terminal_result: None,
        },
        finalized: copy_entry_ids(&sc.context),
        turn_results: Vec::new(),
        seen: Vec::new(),
    };
    proof {
        assert(attempts_view(w.state.tool_attempts@) =~= Seq::empty());
        assert(w@ == initial_fold(run_id, sc@.context));
    }
    let mut i: usize = 0;
    while i < records.len()
        invariant
            0 <= i <= records@.len(),
            records@.len() < u64::MAX,
            scan_entries_from(empty_scan(), run_id, entries@, 0) == Ok::<EntryScan, CorruptionView>(
                sc@,
            ),
            positions_in(sc@, entries@.len() as int),
            counters_within(w@, i as int),
            fold_records_from(initial_fold(run_id, sc@.context), sc@, entries@, records@, 0)
                == fold_records_from(w@, sc@, entries@, records@, i as int),
        decreases records.len() - i,
    {
        match apply_record(&mut w, &sc, entries, &records[i], i) {
            Ok(()) => {},
            Err(e) => {
                return Err(e);
            },
        }
        i = i + 1;
    }
    let mut j: usize = 0;
    while j < entries.len()
        invariant
            0 <= j <= entries@.len(),
            scan_entries_from(empty_scan(), run_id, entries@, 0) == Ok::<EntryScan, CorruptionView>(
                sc@,
            ),
            fold_records_from(initial_fold(run_id, sc@.context), sc@, entries@, records@, 0)
                == Ok::<Fold, CorruptionView>(w@),
            first_orphan(entries@, w@.finalized, 0) == first_orphan(entries@, w@.finalized, j as int),
        decreases entries.len() - j,
    {
        let generated = match entries[j].data {
            AgentEntryData::UserInput { .. } => false,
            _ => true,
        };
        if generated && !has_entry_id(&w.finalized, entries[j].id) {
            return Err(CorruptionError::OrphanGeneratedEntry(entries[j].id));
        }
        j = j + 1;
    }
    Ok(w.state)
}

} // verus!
