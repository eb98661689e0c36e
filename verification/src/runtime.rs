//! The runtime execution lifecycle: the reducer that rebuilds an execution's
//! state from its event history.

use crate::json::JsonValue;
use crate::types::{
    clone_artifact, clone_json, clone_reason, ArtifactRef, CancelReason, ExecutionEvent,
    ExecutionEventData, ExecutionKind, ExecutionStatus,
};
use crate::text::{decimal, decimal_text_u64};
use vstd::prelude::*;
use vstd::string::StringExecFns;

verus! {

/// What an execution's events reduce to.
#[derive(Debug, PartialEq)]
pub struct ExecutionProjection {
    pub kind: ExecutionKind,
    pub configuration_digest: String,
    pub status: ExecutionStatus,
    pub cancel_requested: bool,
    pub cancel_reason: Option<CancelReason>,
    pub result_artifact: Option<ArtifactRef>,
    pub error: Option<JsonValue>,
    pub version: u64,
}

impl Clone for ExecutionProjection {
    fn clone(&self) -> (r: Self)
        ensures
            r == *self,
    {
        ExecutionProjection {
            kind: self.kind.clone(),
            configuration_digest: self.configuration_digest.clone(),
            status: self.status,
            cancel_requested: self.cancel_requested,
            cancel_reason: clone_reason(&self.cancel_reason),
            result_artifact: clone_artifact(&self.result_artifact),
            error: clone_json(&self.error),
            version: self.version,
        }
    }
}

/// Why an event history does not reduce.
#[derive(Clone, Copy, Debug, PartialEq, Eq)]
pub enum ReductionError {
    Empty,
    Sequence { expected: u64, actual: u64 },
    MissingCreated,
    InvalidTransition { event: &'static str, status: ExecutionStatus },
    EventAfterTerminal(ExecutionStatus),
}

/// The text of a reduction error.
pub open spec fn reduction_text(e: ReductionError) -> Seq<char> {
    match e {
        ReductionError::Empty => "execution event history is empty"@,
        ReductionError::Sequence { expected, actual } => "event sequence "@ + decimal(actual as nat)
            + " is not the expected contiguous sequence "@ + decimal(expected as nat),
        ReductionError::MissingCreated => "first event is not execution_created"@,
        ReductionError::InvalidTransition { event, status } => "invalid event "@ + event@
            + " while execution is "@ + status.spec_name(),
        ReductionError::EventAfterTerminal(status) => "event exists after terminal status "@
            + status.spec_name(),
    }
}

impl ReductionError {
    /// The error's text.
    pub fn to_text(&self) -> (r: String)
        ensures
            r@ == reduction_text(*self),
    {
        match self {
            ReductionError::Empty => "execution event history is empty".to_string(),
            ReductionError::Sequence { expected, actual } => {
                let mut text = "event sequence ".to_string();
                let a = decimal_text_u64(*actual);
                text.append(a.as_str());
                text.append(" is not the expected contiguous sequence ");
                let e = decimal_text_u64(*expected);
                text.append(e.as_str());
                text
            },
            ReductionError::MissingCreated => "first event is not execution_created".to_string(),
            ReductionError::InvalidTransition { event, status } => {
                let mut text = "invalid event ".to_string();
                text.append(event);
                text.append(" while execution is ");
                text.append(status.as_str());
                text
            },
            ReductionError::EventAfterTerminal(status) => {
                let mut text = "event exists after terminal status ".to_string();
                text.append(status.as_str());
                text
            },
        }
    }
}

/// Running or waiting: the statuses from which an execution may settle.
pub open spec fn is_active(status: ExecutionStatus) -> bool {
    status is Running || status is Waiting
}

/// The projection right after creation.
pub open spec fn created_projection(kind: ExecutionKind, configuration_digest: String) -> ExecutionProjection {
    ExecutionProjection {
        kind,
        configuration_digest,
        status: ExecutionStatus::Pending,
        cancel_requested: false,
        cancel_reason: None,
        result_artifact: None,
        error: None,
        version: 1,
    }
}

/// One event applied to a projection.
pub open spec fn reduce_step(p: ExecutionProjection, e: ExecutionEvent) -> Result<
    ExecutionProjection,
    ReductionError,
> {
    let invalid = ReductionError::InvalidTransition { event: e.data.spec_kind(), status: p.status };
    if e.sequence != p.version + 1 {
        Err(ReductionError::Sequence { expected: (p.version + 1) as u64, actual: e.sequence })
    } else if p.status.spec_is_terminal() {
        Err(ReductionError::EventAfterTerminal(p.status))
    } else {
        match e.data {
            ExecutionEventData::Created { .. } => Err(invalid),
            ExecutionEventData::Started => if p.status is Pending {
                Ok(ExecutionProjection { status: ExecutionStatus::Running, version: e.sequence, ..p })
            } else {
                Err(invalid)
            },
            ExecutionEventData::CancelRequested { reason } => Ok(
                ExecutionProjection {
                    cancel_requested: true,
                    cancel_reason: Some(reason),
                    version: e.sequence,
                    ..p
                },
            ),
            ExecutionEventData::Succeeded { result_artifact } => if is_active(p.status) {
                Ok(
                    ExecutionProjection {
                        status: ExecutionStatus::Succeeded,
                        result_artifact,
                        version: e.sequence,
                        ..p
                    },
                )
            } else {
                Err(invalid)
            },
            ExecutionEventData::Failed { error } => if is_active(p.status) {
                Ok(
                    ExecutionProjection {
                        status: ExecutionStatus::Failed,
                        error: Some(error),
                        version: e.sequence,
                        ..p
                    },
                )
            } else {
                Err(invalid)
            },
            ExecutionEventData::Cancelled { reason } => if p.cancel_requested {
                Ok(
                    ExecutionProjection {
                        status: ExecutionStatus::Cancelled,
                        cancel_reason: if reason is Some {
                            reason
                        } else {
                            p.cancel_reason
                        },
                        version: e.sequence,
                        ..p
                    },
                )
            } else {
                Err(invalid)
            },
            ExecutionEventData::TimedOut => if is_active(p.status) {
                Ok(ExecutionProjection { status: ExecutionStatus::TimedOut, version: e.sequence, ..p })
            } else {
                Err(invalid)
            },
            ExecutionEventData::RequiresIntervention { .. } => if is_active(p.status) {
                Ok(
                    ExecutionProjection {
                        status: ExecutionStatus::RequiresIntervention,
                        version: e.sequence,
                        ..p
                    },
                )
            } else {
                Err(invalid)
            },
        }
    }
}

/// The events from index `i` on, applied to `p` in order.
pub open spec fn reduce_from(p: ExecutionProjection, events: Seq<ExecutionEvent>, i: int) -> Result<
    ExecutionProjection,
    ReductionError,
>
    decreases events.len() - i,
{
    if i >= events.len() || i < 0 {
        Ok(p)
    } else {
        match reduce_step(p, events[i]) {
            Ok(q) => reduce_from(q, events, i + 1),
            Err(e) => Err(e),
        }
    }
}

/// What a whole event history reduces to.
pub open spec fn reduce_events(events: Seq<ExecutionEvent>) -> Result<
    ExecutionProjection,
    ReductionError,
> {
    if events.len() == 0 {
        Err(ReductionError::Empty)
    } else if events[0].sequence != 1 {
        Err(ReductionError::Sequence { expected: 1, actual: events[0].sequence })
    } else {
        match events[0].data {
            ExecutionEventData::Created { kind, configuration_digest } => reduce_from(
                created_projection(kind, configuration_digest),
                events,
                1,
            ),
            _ => Err(ReductionError::MissingCreated),
        }
    }
}

/// Rebuilds an execution's state from its complete event history.
///
/// The first event must be `execution_created` with sequence 1; every later
/// event must carry the next sequence and be allowed by the status it meets.
/// The laws over whole histories stand in the service module:
/// `lemma_reduced_history_facts`, `lemma_reduced_history_settles`,
/// `lemma_next_event` and `lemma_repeated_cancel_requests`.
pub fn reduce_execution_events(events: &[ExecutionEvent]) -> (r: Result<
    ExecutionProjection,
    ReductionError,
>)
    ensures
        r == reduce_events(events@),
{
    if events.len() == 0 {
        return Err(ReductionError::Empty);
    }
    let first = &events[0];
    if first.sequence != 1 {
        return Err(ReductionError::Sequence { expected: 1, actual: first.sequence });
    }
    let mut projection = match &first.data {
        ExecutionEventData::Created { kind, configuration_digest } => ExecutionProjection {
            kind: kind.clone(),
            configuration_digest: configuration_digest.clone(),
            status: ExecutionStatus::Pending,
            cancel_requested: false,
            cancel_reason: None,
            result_artifact: None,
            error: None,
            version: 1,
        },
        _ => {
            return Err(ReductionError::MissingCreated);
        },
    };
    let mut i: usize = 1;
    while i < events.len()
        invariant
            1 <= i <= events@.len(),
            projection.version == i,
            reduce_events(events@) == reduce_from(projection, events@, i as int),
        decreases events.len() - i,
    {
        let event = &events[i];
        let expected = projection.version + 1;
        if event.sequence != expected {
            return Err(ReductionError::Sequence { expected, actual: event.sequence });
        }
        if projection.status.is_terminal() {
            return Err(ReductionError::EventAfterTerminal(projection.status));
        }
        let status = projection.status;
        let invalid = ReductionError::InvalidTransition { event: event.data.kind(), status };
        match &event.data {
            ExecutionEventData::Created { .. } => {
                return Err(invalid);
            },
            ExecutionEventData::Started => {
                if status == ExecutionStatus::Pending {
                    projection.status = ExecutionStatus::Running;
                } else {
                    return Err(invalid);
                }
            },
            ExecutionEventData::CancelRequested { reason } => {
                projection.cancel_requested = true;
                projection.cancel_reason = Some(reason.clone());
            },
            ExecutionEventData::Succeeded { result_artifact } => {
                if status == ExecutionStatus::Running || status == ExecutionStatus::Waiting {
                    projection.status = ExecutionStatus::Succeeded;
                    projection.result_artifact = clone_artifact(result_artifact);
                } else {
                    return Err(invalid);
                }
            },
            ExecutionEventData::Failed { error } => {
                if status == ExecutionStatus::Running || status == ExecutionStatus::Waiting {
                    projection.status = ExecutionStatus::Failed;
                    projection.error = Some(error.clone());
                } else {
                    return Err(invalid);
                }
            },
            ExecutionEventData::Cancelled { reason } => {
                if projection.cancel_requested {
                    projection.status = ExecutionStatus::Cancelled;
                    if let Some(reason) = reason {
                        projection.cancel_reason = Some(reason.clone());
                    }
                } else {
                    return Err(invalid);
                }
            },
            ExecutionEventData::TimedOut => {
                if status == ExecutionStatus::Running || status == ExecutionStatus::Waiting {
                    projection.status = ExecutionStatus::TimedOut;
                } else {
                    return Err(invalid);
                }
            },
            ExecutionEventData::RequiresIntervention { .. } => {
                if status == ExecutionStatus::Running || status == ExecutionStatus::Waiting {
                    projection.status = ExecutionStatus::RequiresIntervention;
                } else {
                    return Err(invalid);
                }
            },
        }
        projection.version = event.sequence;
        i = i + 1;
    }
    Ok(projection)
}

} // verus!
