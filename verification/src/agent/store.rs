//! The durable Agent store's vocabulary and the rules it holds every write
//! and read to. The database work itself runs outside the library.

use crate::agent::history::{AgentEntry, AgentEntryData, AgentRecord, AgentRecordData};
use crate::ids::{
    four_digit_year, instant_text, parse_rfc3339, parse_uuid_text, spec_instant_text,
    spec_parse_rfc3339, spec_parse_uuid, spec_uuid_text, uuid_text, AgentEntryId, AgentRunId,
    Timestamp,
};
use crate::json::JsonValue;
use crate::text::{decimal, decimal_text_u64, str_equal};
use vstd::prelude::*;
use vstd::string::StringExecFns;

verus! {

/// One stored Agent run.
#[derive(Debug, PartialEq)]
pub struct AgentRunRecord {
    pub id: AgentRunId,
    pub configuration: JsonValue,
    pub created_at: Timestamp,
    pub version: u64,
}

/// A run to create, with its first entry.
#[derive(Debug)]
pub struct NewAgentRun {
    pub id: AgentRunId,
    pub configuration: JsonValue,
    pub created_at: Timestamp,
    pub initial_entry: AgentEntry,
}

/// Entries and records to append to a run at an expected version.
#[derive(Debug)]
pub struct AgentAppend {
    pub run_id: AgentRunId,
    pub expected_version: u64,
    pub entries: Vec<AgentEntry>,
    pub records: Vec<AgentRecord>,
}

/// A run with its whole history.
#[derive(Debug, PartialEq)]
pub struct AgentHistorySnapshot {
    pub run: AgentRunRecord,
    pub entries: Vec<AgentEntry>,
    pub records: Vec<AgentRecord>,
}

/// Why an Agent store operation failed.
#[derive(Debug, PartialEq, Eq)]
pub enum AgentStoreError {
    NotFound(String),
    Conflict { id: String, expected: u64, actual: u64 },
    Corrupt(String),
    Backend(String),
}

/// An Agent store error taken by view.
pub enum AgentStoreErrorView {
    NotFound(Seq<char>),
    Conflict { id: Seq<char>, expected: u64, actual: u64 },
    Corrupt(Seq<char>),
    Backend(Seq<char>),
}

impl View for AgentStoreError {
    type V = AgentStoreErrorView;

    open spec fn view(&self) -> AgentStoreErrorView {
        match self {
            AgentStoreError::NotFound(m) => AgentStoreErrorView::NotFound(m@),
            AgentStoreError::Conflict { id, expected, actual } => AgentStoreErrorView::Conflict {
                id: id@,
                expected: *expected,
                actual: *actual,
            },
            AgentStoreError::Corrupt(m) => AgentStoreErrorView::Corrupt(m@),
            AgentStoreError::Backend(m) => AgentStoreErrorView::Backend(m@),
        }
    }
}

/// The stored name of an entry's kind.
pub open spec fn spec_entry_kind(data: AgentEntryData) -> &'static str {
    match data {
        AgentEntryData::UserInput { .. } => "user_input",
        AgentEntryData::AssistantMessage { .. } => "assistant_message",
        AgentEntryData::ModelVisibleToolResult { .. } => "model_visible_tool_result",
    }
}

pub fn entry_kind(data: &AgentEntryData) -> (r: &'static str)
    ensures
        r == spec_entry_kind(*data),
{
    match data {
        AgentEntryData::UserInput { .. } => "user_input",
        AgentEntryData::AssistantMessage { .. } => "assistant_message",
        AgentEntryData::ModelVisibleToolResult { .. } => "model_visible_tool_result",
    }
}

/// The first reason a new run cannot be created.
pub open spec fn initial_run_check(new: NewAgentRun) -> Result<(), AgentStoreErrorView> {
    if new.initial_entry.run_id != new.id {
        Err(
            AgentStoreErrorView::Corrupt(
                "initial entry run "@ + spec_uuid_text(new.initial_entry.run_id.0)
                    + " does not match new run "@ + spec_uuid_text(new.id.0),
            ),
        )
    } else if new.initial_entry.ordinal != 1 {
        Err(
            AgentStoreErrorView::Corrupt(
                "initial entry ordinal must be 1, got "@ + decimal(new.initial_entry.ordinal as nat),
            ),
        )
    } else if !(new.initial_entry.data is UserInput) {
        Err(AgentStoreErrorView::Corrupt("initial Agent entry must be user_input"@))
    } else {
        Ok(())
    }
}

/// A new run's first entry belongs to the run, has ordinal 1, and is user
/// input.
pub fn validate_initial_run(new: &NewAgentRun) -> (r: Result<(), AgentStoreError>)
    ensures
        match r {
            Ok(()) => initial_run_check(*new) is Ok,
            Err(e) => initial_run_check(*new) == Err::<(), AgentStoreErrorView>(e@),
        },
{
    if new.initial_entry.run_id != new.id {
        let mut message = "initial entry run ".to_string();
        let entry_run = uuid_text(new.initial_entry.run_id.0);
        message.append(entry_run.as_str());
        message.append(" does not match new run ");
        let run = uuid_text(new.id.0);
        message.append(run.as_str());
        return Err(AgentStoreError::Corrupt(message));
    }
    if new.initial_entry.ordinal != 1 {
        let mut message = "initial entry ordinal must be 1, got ".to_string();
        let ordinal = decimal_text_u64(new.initial_entry.ordinal);
        message.append(ordinal.as_str());
        return Err(AgentStoreError::Corrupt(message));
    }
    match new.initial_entry.data {
        AgentEntryData::UserInput { .. } => Ok(()),
        _ => Err(AgentStoreError::Corrupt("initial Agent entry must be user_input".to_string())),
    }
}

/// What the run id of the `index`-th entry or record of an append says.
pub open spec fn run_fault(what: Seq<char>, actual: AgentRunId, run_id: AgentRunId) -> Option<
    AgentStoreErrorView,
> {
    if actual != run_id {
        Some(
            AgentStoreErrorView::Corrupt(
                what + " run "@ + spec_uuid_text(actual.0) + " does not match append run "@
                    + spec_uuid_text(run_id.0),
            ),
        )
    } else {
        None
    }
}

/// What the position number of the `index`-th entry or record of an append
/// says: it must continue the stored numbering by one.
pub open spec fn number_fault(
    what: Seq<char>,
    label: Seq<char>,
    actual: u64,
    current: u64,
    index: int,
) -> Option<AgentStoreErrorView> {
    let expected = current + index + 1;
    if expected > u64::MAX {
        Some(AgentStoreErrorView::Backend("Agent "@ + what + " "@ + label + " overflow"@))
    } else if actual != expected {
        Some(
            AgentStoreErrorView::Corrupt(
                "Agent "@ + what + " "@ + label + " "@ + decimal(actual as nat)
                    + " does not continue from "@ + decimal(current as nat) + " (expected "@
                    + decimal(expected as nat) + ")"@,
            ),
        )
    } else {
        None
    }
}

/// The first fault among the entries from index `i` on.
pub open spec fn entries_fault(
    entries: Seq<AgentEntry>,
    run_id: AgentRunId,
    current: u64,
    i: int,
) -> Option<AgentStoreErrorView>
    decreases entries.len() - i,
{
    if i < 0 || i >= entries.len() {
        None
    } else if run_fault("entry"@, entries[i].run_id, run_id) is Some {
        run_fault("entry"@, entries[i].run_id, run_id)
    } else if number_fault("entry"@, "ordinal"@, entries[i].ordinal, current, i) is Some {
        number_fault("entry"@, "ordinal"@, entries[i].ordinal, current, i)
    } else {
        entries_fault(entries, run_id, current, i + 1)
    }
}

/// The first fault among the records from index `i` on.
pub open spec fn records_fault(
    records: Seq<AgentRecord>,
    run_id: AgentRunId,
    current: u64,
    i: int,
) -> Option<AgentStoreErrorView>
    decreases records.len() - i,
{
    if i < 0 || i >= records.len() {
        None
    } else if run_fault("record"@, records[i].run_id, run_id) is Some {
        run_fault("record"@, records[i].run_id, run_id)
    } else if number_fault("record"@, "sequence"@, records[i].sequence, current, i) is Some {
        number_fault("record"@, "sequence"@, records[i].sequence, current, i)
    } else {
        records_fault(records, run_id, current, i + 1)
    }
}

/// The first reason an append cannot continue the stored history.
pub open spec fn append_check(
    append: AgentAppend,
    current_entry_ordinal: u64,
    current_record_sequence: u64,
) -> Result<(), AgentStoreErrorView> {
    if append.entries@.len() == 0 && append.records@.len() == 0 {
        Err(AgentStoreErrorView::Corrupt("Agent append must contain at least one entry or record"@))
    } else if entries_fault(append.entries@, append.run_id, current_entry_ordinal, 0) is Some {
        Err(entries_fault(append.entries@, append.run_id, current_entry_ordinal, 0)->0)
    } else if records_fault(append.records@, append.run_id, current_record_sequence, 0) is Some {
        Err(records_fault(append.records@, append.run_id, current_record_sequence, 0)->0)
    } else {
        Ok(())
    }
}

fn run_fault_text(what: &str, actual: AgentRunId, run_id: AgentRunId) -> (r: String)
    requires
        actual != run_id,
    ensures
        run_fault(what@, actual, run_id) == Some(AgentStoreErrorView::Corrupt(r@)),
{
    let mut message = what.to_string();
    message.append(" run ");
    let a = uuid_text(actual.0);
    message.append(a.as_str());
    message.append(" does not match append run ");
    let b = uuid_text(run_id.0);
    message.append(b.as_str());
    message
}

/// The fault of one position number, if any.
fn number_check(what: &str, label: &str, actual: u64, current: u64, index: usize) -> (r: Result<
    (),
    AgentStoreError,
>)
    ensures
        match r {
            Ok(()) => number_fault(what@, label@, actual, current, index as int) is None,
            Err(e) => number_fault(what@, label@, actual, current, index as int) == Some(e@),
        },
{
    if current as u128 + index as u128 + 1 > u64::MAX as u128 {
        let mut message = "Agent ".to_string();
        message.append(what);
        message.append(" ");
        message.append(label);
        message.append(" overflow");
        return Err(AgentStoreError::Backend(message));
    }
    let expected: u64 = current + index as u64 + 1;
    if actual != expected {
        let mut message = "Agent ".to_string();
        message.append(what);
        message.append(" ");
        message.append(label);
        message.append(" ");
        let a = decimal_text_u64(actual);
        message.append(a.as_str());
        message.append(" does not continue from ");
        let c = decimal_text_u64(current);
        message.append(c.as_str());
        message.append(" (expected ");
        let e = decimal_text_u64(expected);
        message.append(e.as_str());
        message.append(")");
        return Err(AgentStoreError::Corrupt(message));
    }
    Ok(())
}

/// An append holds at least one entry or record; every entry and record
/// belongs to the append's run; entry ordinals and record sequences continue
/// the stored ones by one, without gaps.
pub fn validate_append(
    append: &AgentAppend,
    current_entry_ordinal: u64,
    current_record_sequence: u64,
) -> (r: Result<(), AgentStoreError>)
    ensures
        match r {
            Ok(()) => append_check(*append, current_entry_ordinal, current_record_sequence) is Ok,
            Err(e) => append_check(*append, current_entry_ordinal, current_record_sequence)
                == Err::<(), AgentStoreErrorView>(e@),
        },
{
    if append.entries.len() == 0 && append.records.len() == 0 {
        return Err(
            AgentStoreError::Corrupt(
                "Agent append must contain at least one entry or record".to_string(),
            ),
        );
    }
    let mut i: usize = 0;
    while i < append.entries.len()
        invariant
            0 <= i <= append.entries@.len(),
            entries_fault(append.entries@, append.run_id, current_entry_ordinal, 0)
                == entries_fault(append.entries@, append.run_id, current_entry_ordinal, i as int),
        decreases append.entries.len() - i,
    {
        let entry = &append.entries[i];
        if entry.run_id != append.run_id {
            return Err(AgentStoreError::Corrupt(run_fault_text("entry", entry.run_id, append.run_id)));
        }
        if let Err(e) = number_check("entry", "ordinal", entry.ordinal, current_entry_ordinal, i) {
            return Err(e);
        }
        i = i + 1;
    }
    let mut j: usize = 0;
    while j < append.records.len()
        invariant
            0 <= j <= append.records@.len(),
            entries_fault(append.entries@, append.run_id, current_entry_ordinal, 0) is None,
            records_fault(append.records@, append.run_id, current_record_sequence, 0)
                == records_fault(append.records@, append.run_id, current_record_sequence, j as int),
        decreases append.records.len() - j,
    {
        let record = &append.records[j];
        if record.run_id != append.run_id {
            return Err(
                AgentStoreError::Corrupt(run_fault_text("record", record.run_id, append.run_id)),
            );
        }
        if let Err(e) = number_check("record", "sequence", record.sequence, current_record_sequence, j) {
            return Err(e);
        }
        j = j + 1;
    }
    Ok(())
}

/// What an append at the run's current version gives: a conflict when the
/// expected version is stale, the first fault of the append, the version
/// overflow, or the next version.
pub open spec fn append_plan(
    append: AgentAppend,
    current_version: u64,
    current_entry_ordinal: u64,
    current_record_sequence: u64,
) -> Result<u64, AgentStoreErrorView> {
    if current_version != append.expected_version {
        Err(
            AgentStoreErrorView::Conflict {
                id: spec_uuid_text(append.run_id.0),
                expected: append.expected_version,
                actual: current_version,
            },
        )
    } else if append_check(append, current_entry_ordinal, current_record_sequence) is Err {
        Err(append_check(append, current_entry_ordinal, current_record_sequence)->Err_0)
    } else if current_version == u64::MAX {
        Err(AgentStoreErrorView::Backend("Agent run version overflow"@))
    } else {
        Ok((current_version + 1) as u64)
    }
}

/// Decides an append against the stored run: the version it moves the run
/// to, or why it is refused. The stored version is checked first, then the
/// append itself.
pub fn plan_append(
    append: &AgentAppend,
    current_version: u64,
    current_entry_ordinal: u64,
    current_record_sequence: u64,
) -> (r: Result<u64, AgentStoreError>)
    ensures
        match r {
            Ok(v) => append_plan(
                *append,
                current_version,
                current_entry_ordinal,
                current_record_sequence,
            ) == Ok::<u64, AgentStoreErrorView>(v),
            Err(e) => append_plan(
                *append,
                current_version,
                current_entry_ordinal,
                current_record_sequence,
            ) == Err::<u64, AgentStoreErrorView>(e@),
        },
{
    if current_version != append.expected_version {
        return Err(
            AgentStoreError::Conflict {
                id: uuid_text(append.run_id.0),
                expected: append.expected_version,
                actual: current_version,
            },
        );
    }
    if let Err(e) = validate_append(append, current_entry_ordinal, current_record_sequence) {
        return Err(e);
    }
    if current_version == u64::MAX {
        return Err(AgentStoreError::Backend("Agent run version overflow".to_string()));
    }
    Ok(current_version + 1)
}

/// A stored signed integer read back as unsigned.
pub open spec fn stored_u64(value: i64, field: Seq<char>) -> Result<u64, AgentStoreErrorView> {
    if value < 0 {
        Err(AgentStoreErrorView::Corrupt("negative "@ + field))
    } else {
        Ok(value as u64)
    }
}

pub fn to_u64(value: i64, field: &str) -> (r: Result<u64, AgentStoreError>)
    ensures
        match r {
            Ok(v) => stored_u64(value, field@) == Ok::<u64, AgentStoreErrorView>(v),
            Err(e) => stored_u64(value, field@) == Err::<u64, AgentStoreErrorView>(e@),
        },
{
    if value < 0 {
        let mut message = "negative ".to_string();
        message.append(field);
        return Err(AgentStoreError::Corrupt(message));
    }
    Ok(value as u64)
}

/// An unsigned integer written as signed.
pub fn to_i64(value: u64, field: &str) -> (r: Result<i64, AgentStoreError>)
    ensures
        value <= i64::MAX ==> r == Ok::<i64, AgentStoreError>(value as i64),
        value > i64::MAX ==> (r matches Err(e) && e@ == AgentStoreErrorView::Backend(
            field@ + " overflow"@,
        )),
{
    if value > i64::MAX as u64 {
        let mut message = field.to_string();
        message.append(" overflow");
        return Err(AgentStoreError::Backend(message));
    }
    Ok(value as i64)
}

/// A stored identifier read back.
pub open spec fn stored_id(text: Seq<char>, field: Seq<char>) -> Result<u128, AgentStoreErrorView> {
    match spec_parse_uuid(text) {
        Ok(bits) => Ok(bits),
        Err(m) => Err(AgentStoreErrorView::Corrupt("invalid "@ + field + ": "@ + m)),
    }
}

pub fn parse_stored_id(text: &str, field: &str) -> (r: Result<u128, AgentStoreError>)
    ensures
        match r {
            Ok(b) => stored_id(text@, field@) == Ok::<u128, AgentStoreErrorView>(b),
            Err(e) => stored_id(text@, field@) == Err::<u128, AgentStoreErrorView>(e@),
        },
{
    match parse_uuid_text(text) {
        Ok(bits) => Ok(bits),
        Err(m) => {
            let mut message = "invalid ".to_string();
            message.append(field);
            message.append(": ");
            message.append(m.as_str());
            Err(AgentStoreError::Corrupt(message))
        },
    }
}

/// A stored instant read back.
pub open spec fn stored_time(text: Seq<char>, field: Seq<char>) -> Result<
    Timestamp,
    AgentStoreErrorView,
> {
    match spec_parse_rfc3339(text) {
        Ok(t) => Ok(t),
        Err(m) => Err(AgentStoreErrorView::Corrupt("invalid "@ + field + ": "@ + m)),
    }
}

pub fn parse_stored_time(text: &str, field: &str) -> (r: Result<Timestamp, AgentStoreError>)
    ensures
        match r {
            Ok(t) => stored_time(text@, field@) == Ok::<Timestamp, AgentStoreErrorView>(t),
            Err(e) => stored_time(text@, field@) == Err::<Timestamp, AgentStoreErrorView>(e@),
        },
{
    match parse_rfc3339(text) {
        Ok(t) => Ok(t),
        Err(m) => {
            let mut message = "invalid ".to_string();
            message.append(field);
            message.append(": ");
            message.append(m.as_str());
            Err(AgentStoreError::Corrupt(message))
        },
    }
}

/// What one stored entry row reads back to: the stored kind must name the
/// payload's kind, and the id, ordinal and instant must read back.
pub open spec fn entry_read(
    run_id: AgentRunId,
    id: Seq<char>,
    ordinal: i64,
    created_at: Seq<char>,
    kind: Seq<char>,
    data: AgentEntryData,
) -> Result<AgentEntry, AgentStoreErrorView> {
    if kind != spec_entry_kind(data)@ {
        Err(
            AgentStoreErrorView::Corrupt(
                "Agent entry kind "@ + kind + " does not match payload kind "@ + spec_entry_kind(
                    data,
                )@,
            ),
        )
    } else {
        match (
            stored_id(id, "Agent entry id"@),
            stored_u64(ordinal, "Agent entry ordinal"@),
            stored_time(created_at, "Agent entry created_at"@),
        ) {
            (Err(e), _, _) => Err(e),
            (Ok(_), Err(e), _) => Err(e),
            (Ok(_), Ok(_), Err(e)) => Err(e),
            (Ok(bits), Ok(n), Ok(t)) => Ok(
                AgentEntry { id: AgentEntryId(bits), run_id, ordinal: n, created_at: t, data },
            ),
        }
    }
}

/// One stored entry row read back.
pub fn decode_entry(
    run_id: AgentRunId,
    id: &str,
    ordinal: i64,
    created_at: &str,
    kind: &str,
    data: AgentEntryData,
) -> (r: Result<AgentEntry, AgentStoreError>)
    ensures
        match entry_read(run_id, id@, ordinal, created_at@, kind@, data) {
            Ok(e) => r == Ok::<AgentEntry, AgentStoreError>(e),
            Err(v) => r matches Err(x) && x@ == v,
        },
{
    let payload_kind = entry_kind(&data);
    if !str_equal(kind, payload_kind) {
        let mut message = "Agent entry kind ".to_string();
        message.append(kind);
        message.append(" does not match payload kind ");
        message.append(payload_kind);
        return Err(AgentStoreError::Corrupt(message));
    }
    let bits = match parse_stored_id(id, "Agent entry id") {
        Ok(b) => b,
        Err(e) => {
            return Err(e);
        },
    };
    let n = match to_u64(ordinal, "Agent entry ordinal") {
        Ok(n) => n,
        Err(e) => {
            return Err(e);
        },
    };
    let t = match parse_stored_time(created_at, "Agent entry created_at") {
        Ok(t) => t,
        Err(e) => {
            return Err(e);
        },
    };
    Ok(AgentEntry { id: AgentEntryId(bits), run_id, ordinal: n, created_at: t, data })
}

/// What one stored record row reads back to: the stored kind must name the
/// payload's kind, and the sequence and instant must read back.
pub open spec fn record_read(
    run_id: AgentRunId,
    sequence: i64,
    recorded_at: Seq<char>,
    kind: Seq<char>,
    data: AgentRecordData,
) -> Result<AgentRecord, AgentStoreErrorView> {
    if kind != data.spec_kind()@ {
        Err(
            AgentStoreErrorView::Corrupt(
                "Agent record kind "@ + kind + " does not match payload kind "@ + data.spec_kind()@,
            ),
        )
    } else {
        match (
            stored_u64(sequence, "Agent record sequence"@),
            stored_time(recorded_at, "Agent record recorded_at"@),
        ) {
            (Err(e), _) => Err(e),
            (Ok(_), Err(e)) => Err(e),
            (Ok(n), Ok(t)) => Ok(AgentRecord { run_id, sequence: n, recorded_at: t, data }),
        }
    }
}

/// One stored record row read back.
pub fn decode_record(
    run_id: AgentRunId,
    sequence: i64,
    recorded_at: &str,
    kind: &str,
    data: AgentRecordData,
) -> (r: Result<AgentRecord, AgentStoreError>)
    ensures
        match record_read(run_id, sequence, recorded_at@, kind@, data) {
            Ok(rec) => r == Ok::<AgentRecord, AgentStoreError>(rec),
            Err(v) => r matches Err(x) && x@ == v,
        },
{
    let payload_kind = data.kind();
    if !str_equal(kind, payload_kind) {
        let mut message = "Agent record kind ".to_string();
        message.append(kind);
        message.append(" does not match payload kind ");
        message.append(payload_kind);
        return Err(AgentStoreError::Corrupt(message));
    }
    let n = match to_u64(sequence, "Agent record sequence") {
        Ok(n) => n,
        Err(e) => {
            return Err(e);
        },
    };
    let t = match parse_stored_time(recorded_at, "Agent record recorded_at") {
        Ok(t) => t,
        Err(e) => {
            return Err(e);
        },
    };
    Ok(AgentRecord { run_id, sequence: n, recorded_at: t, data })
}

/// An instant's stored text, or a backend error naming the field when
/// `chrono` cannot represent it.
fn stored_instant_text(t: Timestamp, field: &str) -> (r: Result<String, AgentStoreError>)
    ensures
        r matches Ok(text) ==> text@ == spec_instant_text(t),
        r matches Err(e) ==> !four_digit_year(t) && e@ == AgentStoreErrorView::Backend(
            field@ + " out of range"@,
        ),
        four_digit_year(t) ==> (r matches Ok(text) && spec_parse_rfc3339(text@) == Ok::<
            Timestamp,
            Seq<char>,
        >(t)),
{
    match instant_text(t) {
        Some(text) => Ok(text),
        None => {
            let mut message = field.to_string();
            message.append(" out of range");
            Err(AgentStoreError::Backend(message))
        },
    }
}

/// The columns one entry is stored under.
pub struct EntryColumns {
    pub id: String,
    pub ordinal: i64,
    pub created_at: String,
    pub kind: &'static str,
}

/// The columns of an entry: its id's text, its ordinal, its instant's text
/// and its payload's kind. What is written reads back as the same entry.
pub fn entry_columns(entry: &AgentEntry) -> (r: Result<EntryColumns, AgentStoreError>)
    ensures
        match r {
            Ok(c) => {
                &&& c.id@ == spec_uuid_text(entry.id.0)
                &&& c.ordinal == entry.ordinal
                &&& c.created_at@ == spec_instant_text(entry.created_at)
                &&& c.kind == spec_entry_kind(entry.data)
            },
            Err(e) => if entry.ordinal > i64::MAX {
                e@ == AgentStoreErrorView::Backend("Agent entry ordinal overflow"@)
            } else {
                !four_digit_year(entry.created_at) && e@ == AgentStoreErrorView::Backend(
                    "Agent entry created_at out of range"@,
                )
            },
        },
        entry.ordinal <= i64::MAX && four_digit_year(entry.created_at) ==> r is Ok,
        r matches Ok(c) ==> (four_digit_year(entry.created_at) ==> entry_read(
            entry.run_id,
            c.id@,
            c.ordinal,
            c.created_at@,
            c.kind@,
            entry.data,
        ) == Ok::<AgentEntry, AgentStoreErrorView>(*entry)),
{
    proof {
        reveal_strlit("Agent entry ordinal");
        reveal_strlit(" overflow");
        reveal_strlit("Agent entry ordinal overflow");
        reveal_strlit("Agent entry created_at");
        reveal_strlit(" out of range");
        reveal_strlit("Agent entry created_at out of range");
        assert("Agent entry ordinal"@ + " overflow"@ =~= "Agent entry ordinal overflow"@);
        assert("Agent entry created_at"@ + " out of range"@ =~= "Agent entry created_at out of range"@);
    }
    let ordinal = match to_i64(entry.ordinal, "Agent entry ordinal") {
        Ok(n) => n,
        Err(e) => {
            return Err(e);
        },
    };
    let created_at = match stored_instant_text(entry.created_at, "Agent entry created_at") {
        Ok(text) => text,
        Err(e) => {
            return Err(e);
        },
    };
    let id = uuid_text(entry.id.0);
    Ok(EntryColumns { id, ordinal, created_at, kind: entry_kind(&entry.data) })
}

/// The columns one record is stored under.
pub struct RecordColumns {
    pub sequence: i64,
    pub recorded_at: String,
    pub kind: &'static str,
}

/// The columns of a record: its sequence, its instant's text and its
/// payload's kind. What is written reads back as the same record.
pub fn record_columns(record: &AgentRecord) -> (r: Result<RecordColumns, AgentStoreError>)
    ensures
        match r {
            Ok(c) => {
                &&& c.sequence == record.sequence
                &&& c.recorded_at@ == spec_instant_text(record.recorded_at)
                &&& c.kind == record.data.spec_kind()
            },
            Err(e) => if record.sequence > i64::MAX {
                e@ == AgentStoreErrorView::Backend("Agent record sequence overflow"@)
            } else {
                !four_digit_year(record.recorded_at) && e@ == AgentStoreErrorView::Backend(
                    "Agent record recorded_at out of range"@,
                )
            },
        },
        record.sequence <= i64::MAX && four_digit_year(record.recorded_at) ==> r is Ok,
        r matches Ok(c) ==> (four_digit_year(record.recorded_at) ==> record_read(
            record.run_id,
            c.sequence,
            c.recorded_at@,
            c.kind@,
            record.data,
        ) == Ok::<AgentRecord, AgentStoreErrorView>(*record)),
{
    proof {
        reveal_strlit("Agent record sequence");
        reveal_strlit(" overflow");
        reveal_strlit("Agent record sequence overflow");
        reveal_strlit("Agent record recorded_at");
        reveal_strlit(" out of range");
        reveal_strlit("Agent record recorded_at out of range");
        assert("Agent record sequence"@ + " overflow"@ =~= "Agent record sequence overflow"@);
        assert("Agent record recorded_at"@ + " out of range"@ =~= "Agent record recorded_at out of range"@);
    }
    let sequence = match to_i64(record.sequence, "Agent record sequence") {
        Ok(n) => n,
        Err(e) => {
            return Err(e);
        },
    };
    let recorded_at = match stored_instant_text(record.recorded_at, "Agent record recorded_at") {
        Ok(text) => text,
        Err(e) => {
            return Err(e);
        },
    };
    Ok(RecordColumns { sequence, recorded_at, kind: record.data.kind() })
}

} // verus!
