//! The runtime store's commands and the rules by which it applies them.

use crate::ids::{uuid_text, spec_uuid_text, EventId, ExecutionId, Timestamp};
use crate::json::JsonValue;
use crate::types::{
    clone_artifact, clone_json, clone_reason, ArtifactRef, CancelReason, EventVisibility,
    ExecutionEvent, ExecutionEventData, ExecutionKind, ExecutionRecord, ExecutionStatus,
};
use vstd::prelude::*;

verus! {

/// A new execution and its creation event.
#[derive(Debug, PartialEq)]
pub struct NewExecution {
    pub id: ExecutionId,
    pub kind: ExecutionKind,
    pub configuration_digest: String,
    pub created_at: Timestamp,
    pub deadline: Option<Timestamp>,
    pub event_id: EventId,
}

/// The fields one mutation sets; an unset field keeps its value.
#[derive(Debug, PartialEq)]
pub struct ExecutionPatch {
    pub status: Option<ExecutionStatus>,
    pub started_at: Option<Timestamp>,
    pub finished_at: Option<Timestamp>,
    pub cancel_reason: Option<CancelReason>,
    pub result_artifact: Option<ArtifactRef>,
    pub error: Option<JsonValue>,
}

impl ExecutionPatch {
    /// A patch that sets nothing.
    pub fn empty() -> (r: ExecutionPatch)
        ensures
            r == (ExecutionPatch {
                status: None,
                started_at: None,
                finished_at: None,
                cancel_reason: None,
                result_artifact: None,
                error: None,
            }),
    {
        ExecutionPatch {
            status: None,
            started_at: None,
            finished_at: None,
            cancel_reason: None,
            result_artifact: None,
            error: None,
        }
    }
}

/// One optimistic mutation: a patch and the event that records it.
#[derive(Debug, PartialEq)]
pub struct ExecutionMutation {
    pub execution_id: ExecutionId,
    pub expected_version: u64,
    pub patch: ExecutionPatch,
    pub event_id: EventId,
    pub occurred_at: Timestamp,
    pub visibility: EventVisibility,
    pub event: ExecutionEventData,
}

/// An execution's record together with its whole history.
#[derive(Debug, PartialEq)]
pub struct ExecutionHistorySnapshot {
    pub record: ExecutionRecord,
    pub events: Vec<ExecutionEvent>,
}

/// Why a store command failed.
#[derive(Debug, PartialEq, Eq)]
pub enum StoreError {
    Invalid(String),
    NotFound(String),
    Conflict { id: String, expected: u64, actual: u64 },
    Corrupt(String),
    UnsupportedVersion { subject: String, version: u64 },
    Migration(String),
    TransientBackend(String),
    PermanentBackend(String),
}

/// A store error taken by view.
pub enum StoreErrorView {
    Invalid(Seq<char>),
    NotFound(Seq<char>),
    Conflict { id: Seq<char>, expected: u64, actual: u64 },
    Corrupt(Seq<char>),
    UnsupportedVersion { subject: Seq<char>, version: u64 },
    Migration(Seq<char>),
    TransientBackend(Seq<char>),
    PermanentBackend(Seq<char>),
}

impl View for StoreError {
    type V = StoreErrorView;

    open spec fn view(&self) -> StoreErrorView {
        match self {
            StoreError::Invalid(m) => StoreErrorView::Invalid(m@),
            StoreError::NotFound(m) => StoreErrorView::NotFound(m@),
            StoreError::Conflict { id, expected, actual } => StoreErrorView::Conflict {
                id: id@,
                expected: *expected,
                actual: *actual,
            },
            StoreError::Corrupt(m) => StoreErrorView::Corrupt(m@),
            StoreError::UnsupportedVersion { subject, version } => {
                StoreErrorView::UnsupportedVersion { subject: subject@, version: *version }
            },
            StoreError::Migration(m) => StoreErrorView::Migration(m@),
            StoreError::TransientBackend(m) => StoreErrorView::TransientBackend(m@),
            StoreError::PermanentBackend(m) => StoreErrorView::PermanentBackend(m@),
        }
    }
}

/// The record a new execution starts with.
pub open spec fn spec_created_record(new: NewExecution) -> ExecutionRecord {
    ExecutionRecord {
        id: new.id,
        kind: new.kind,
        status: ExecutionStatus::Pending,
        configuration_digest: new.configuration_digest,
        cancel_requested: false,
        cancel_reason: None,
        result_artifact: None,
        error: None,
        created_at: new.created_at,
        started_at: None,
        finished_at: None,
        deadline: new.deadline,
        version: 1,
    }
}

/// The event that records a new execution.
pub open spec fn spec_created_event(new: NewExecution) -> ExecutionEvent {
    ExecutionEvent {
        id: new.event_id,
        execution_id: new.id,
        sequence: 1,
        occurred_at: new.created_at,
        payload_version: 1,
        visibility: EventVisibility::Public,
        data: ExecutionEventData::Created {
            kind: new.kind,
            configuration_digest: new.configuration_digest,
        },
    }
}

/// The record and the first event that creating `new` stores.
pub fn created_execution(new: &NewExecution) -> (r: (ExecutionRecord, ExecutionEvent))
    ensures
        r.0 == spec_created_record(*new),
        r.1 == spec_created_event(*new),
{
    let record = ExecutionRecord {
        id: new.id,
        kind: new.kind.clone(),
        status: ExecutionStatus::Pending,
        configuration_digest: new.configuration_digest.clone(),
        cancel_requested: false,
        cancel_reason: None,
        result_artifact: None,
        error: None,
        created_at: new.created_at,
        started_at: None,
        finished_at: None,
        deadline: new.deadline,
        version: 1,
    };
    let event = ExecutionEvent {
        id: new.event_id,
        execution_id: new.id,
        sequence: 1,
        occurred_at: new.created_at,
        payload_version: 1,
        visibility: EventVisibility::Public,
        data: ExecutionEventData::Created {
            kind: new.kind.clone(),
            configuration_digest: new.configuration_digest.clone(),
        },
    };
    (record, event)
}

/// `Some` replaces, `None` keeps.
pub open spec fn keep_or<T>(patched: Option<T>, current: Option<T>) -> Option<T> {
    if patched is Some {
        patched
    } else {
        current
    }
}

/// The record after a patch: each set field replaces the stored one, a set
/// cancel reason also marks cancellation as requested, and the version grows
/// by one.
pub open spec fn spec_patched(current: ExecutionRecord, patch: ExecutionPatch) -> ExecutionRecord {
    ExecutionRecord {
        status: if patch.status is Some {
            patch.status->0
        } else {
            current.status
        },
        started_at: keep_or(patch.started_at, current.started_at),
        finished_at: keep_or(patch.finished_at, current.finished_at),
        cancel_requested: current.cancel_requested || patch.cancel_reason is Some,
        cancel_reason: keep_or(patch.cancel_reason, current.cancel_reason),
        result_artifact: keep_or(patch.result_artifact, current.result_artifact),
        error: keep_or(patch.error, current.error),
        version: (current.version + 1) as u64,
        ..current
    }
}

/// The event a mutation appends after `current`.
pub open spec fn spec_mutation_event(current: ExecutionRecord, m: ExecutionMutation) -> ExecutionEvent {
    ExecutionEvent {
        id: m.event_id,
        execution_id: m.execution_id,
        sequence: (current.version + 1) as u64,
        occurred_at: m.occurred_at,
        payload_version: 1,
        visibility: m.visibility,
        data: m.event,
    }
}

/// The largest version the store can hold.
pub open spec fn max_stored_version() -> u64 {
    0x7fff_ffff_ffff_ffff
}

/// Applies one mutation to the stored record of its execution.
///
/// A stale `expected_version` is a conflict and changes nothing; otherwise
/// the patched record and the appended event are returned together.
pub fn apply_mutation(current: &ExecutionRecord, mutation: &ExecutionMutation) -> (r: Result<
    (ExecutionRecord, ExecutionEvent),
    StoreError,
>)
    requires
        current.id == mutation.execution_id,
    ensures
        current.version != mutation.expected_version ==> (r matches Err(StoreError::Conflict {
            id,
            expected,
            actual,
        }) && id@ == spec_uuid_text(mutation.execution_id.0) && expected
            == mutation.expected_version && actual == current.version),
        current.version == mutation.expected_version && current.version >= max_stored_version()
            ==> r matches Err(StoreError::PermanentBackend(_)),
        current.version == mutation.expected_version && current.version < max_stored_version()
            ==> r == Ok::<(ExecutionRecord, ExecutionEvent), StoreError>(
            (spec_patched(*current, mutation.patch), spec_mutation_event(*current, *mutation)),
        ),
{
    if current.version != mutation.expected_version {
        return Err(
            StoreError::Conflict {
                id: uuid_text(mutation.execution_id.0),
                expected: mutation.expected_version,
                actual: current.version,
            },
        );
    }
    if current.version >= 0x7fff_ffff_ffff_ffff {
        return Err(StoreError::PermanentBackend("execution version overflow".to_string()));
    }
    let next_version = current.version + 1;
    let patch = &mutation.patch;
    let record = ExecutionRecord {
        id: current.id,
        kind: current.kind.clone(),
        status: match patch.status {
            Some(status) => status,
            None => current.status,
        },
        configuration_digest: current.configuration_digest.clone(),
        cancel_requested: current.cancel_requested || patch.cancel_reason.is_some(),
        cancel_reason: if patch.cancel_reason.is_some() {
            clone_reason(&patch.cancel_reason)
        } else {
            clone_reason(&current.cancel_reason)
        },
        result_artifact: if patch.result_artifact.is_some() {
            clone_artifact(&patch.result_artifact)
        } else {
            clone_artifact(&current.result_artifact)
        },
        error: if patch.error.is_some() {
            clone_json(&patch.error)
        } else {
            clone_json(&current.error)
        },
        created_at: current.created_at,
        started_at: if patch.started_at.is_some() {
            patch.started_at
        } else {
            current.started_at
        },
        finished_at: if patch.finished_at.is_some() {
            patch.finished_at
        } else {
            current.finished_at
        },
        deadline: current.deadline,
        version: next_version,
    };
    let event = ExecutionEvent {
        id: mutation.event_id,
        execution_id: mutation.execution_id,
        sequence: next_version,
        occurred_at: mutation.occurred_at,
        payload_version: 1,
        visibility: mutation.visibility,
        data: mutation.event.clone(),
    };
    Ok((record, event))
}

} // verus!
