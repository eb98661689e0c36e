//! The decisions of the execution service: which lifecycle action an
//! execution accepts, what it changes, and whether a stored record still
//! agrees with its history.

use crate::ids::Timestamp;
use crate::json::{same_document, JsonValue};
use crate::runtime::{
    created_projection, is_active, reduce_events, reduce_from, reduce_step, ExecutionProjection,
};
use crate::store::{
    max_stored_version, spec_created_event, spec_created_record, spec_mutation_event, spec_patched,
    ExecutionMutation, ExecutionPatch, NewExecution,
};
use crate::types::{
    clone_reason, ArtifactRef, CancelReason, ExecutionEvent, ExecutionEventData, ExecutionRecord,
    ExecutionStatus,
};
use crate::store::StoreError;
use crate::runtime::{reduce_execution_events, reduction_text, ReductionError};
use vstd::prelude::*;

verus! {

/// An action the current status does not allow.
#[derive(Clone, Copy, Debug, PartialEq, Eq)]
pub struct InvalidTransition {
    pub from: ExecutionStatus,
    pub action: &'static str,
}

/// One lifecycle action requested of an execution.
#[derive(Debug, PartialEq)]
pub enum ExecutionAction {
    Start,
    RequestCancel(CancelReason),
    Succeed(Option<ArtifactRef>),
    Fail(JsonValue),
    SettleCancelled,
}

/// The action's name in an invalid-transition report.
pub open spec fn spec_action_name(action: ExecutionAction) -> &'static str {
    match action {
        ExecutionAction::Start => "start",
        ExecutionAction::RequestCancel(_) => "request_cancel",
        ExecutionAction::Succeed(_) => "succeed",
        ExecutionAction::Fail(_) => "fail",
        ExecutionAction::SettleCancelled => "settle_cancelled",
    }
}

/// A patch that sets only what is given.
pub open spec fn patch_of(
    status: Option<ExecutionStatus>,
    started_at: Option<Timestamp>,
    finished_at: Option<Timestamp>,
    cancel_reason: Option<CancelReason>,
    result_artifact: Option<ArtifactRef>,
    error: Option<JsonValue>,
) -> ExecutionPatch {
    ExecutionPatch { status, started_at, finished_at, cancel_reason, result_artifact, error }
}

/// What the service does for an action, at instant `now`: the patch and the
/// event it stores, or the transition it refuses.
pub open spec fn spec_plan(current: ExecutionRecord, action: ExecutionAction, now: Timestamp) -> Result<
    (ExecutionPatch, ExecutionEventData),
    InvalidTransition,
> {
    let refused = InvalidTransition { from: current.status, action: spec_action_name(action) };
    match action {
        ExecutionAction::Start => if current.status is Pending && !current.cancel_requested {
            Ok(
                (
                    patch_of(Some(ExecutionStatus::Running), Some(now), None, None, None, None),
                    ExecutionEventData::Started,
                ),
            )
        } else {
            Err(refused)
        },
        ExecutionAction::RequestCancel(reason) => if !current.status.spec_is_terminal() {
            Ok(
                (
                    patch_of(None, None, None, Some(reason), None, None),
                    ExecutionEventData::CancelRequested { reason },
                ),
            )
        } else {
            Err(refused)
        },
        ExecutionAction::Succeed(result_artifact) => if is_active(current.status) {
            Ok(
                (
                    patch_of(
                        Some(ExecutionStatus::Succeeded),
                        None,
                        Some(now),
                        None,
                        result_artifact,
                        None,
                    ),
                    ExecutionEventData::Succeeded { result_artifact },
                ),
            )
        } else {
            Err(refused)
        },
        ExecutionAction::Fail(error) => if is_active(current.status) {
            Ok(
                (
                    patch_of(Some(ExecutionStatus::Failed), None, Some(now), None, None, Some(error)),
                    ExecutionEventData::Failed { error },
                ),
            )
        } else {
            Err(refused)
        },
        ExecutionAction::SettleCancelled => if !current.status.spec_is_terminal()
            && current.cancel_requested {
            Ok(
                (
                    patch_of(Some(ExecutionStatus::Cancelled), None, Some(now), None, None, None),
                    ExecutionEventData::Cancelled { reason: current.cancel_reason },
                ),
            )
        } else {
            Err(refused)
        },
    }
}

/// What an accepted plan carries from the action: a failure is allowed
/// exactly from a running or waiting execution, and its patch and its event
/// carry the caller's error unchanged, so the patched record holds it; a
/// success carries its result artifact the same way; a cancellation request
/// carries its reason, and settling a cancellation carries the reason
/// already requested.
pub proof fn lemma_plan_carries_payload(current: ExecutionRecord, action: ExecutionAction, now: Timestamp)
    ensures
        action matches ExecutionAction::Fail(error) ==> {
            &&& (spec_plan(current, action, now) is Ok <==> (current.status == ExecutionStatus::Running
                || current.status == ExecutionStatus::Waiting))
            &&& spec_plan(current, action, now) matches Ok((patch, event)) ==> {
                &&& patch.error == Some(error)
                &&& patch.status == Some(ExecutionStatus::Failed)
                &&& patch.finished_at == Some(now)
                &&& event == (ExecutionEventData::Failed { error })
                &&& spec_patched(current, patch).error == Some(error)
                &&& spec_patched(current, patch).status == ExecutionStatus::Failed
            }
        },
        action matches ExecutionAction::Succeed(artifact) ==> {
            &&& (spec_plan(current, action, now) is Ok <==> (current.status == ExecutionStatus::Running
                || current.status == ExecutionStatus::Waiting))
            &&& spec_plan(current, action, now) matches Ok((patch, event)) ==> {
                &&& patch.result_artifact == artifact
                &&& patch.error is None
                &&& patch.status == Some(ExecutionStatus::Succeeded)
                &&& event == (ExecutionEventData::Succeeded { result_artifact: artifact })
            }
        },
        action matches ExecutionAction::RequestCancel(reason) ==> {
            &&& (spec_plan(current, action, now) is Ok <==> !(current.status
                == ExecutionStatus::Succeeded || current.status == ExecutionStatus::Failed
                || current.status == ExecutionStatus::Cancelled || current.status
                == ExecutionStatus::TimedOut || current.status == ExecutionStatus::BudgetExhausted
                || current.status == ExecutionStatus::PolicyDenied || current.status
                == ExecutionStatus::RequiresIntervention))
            &&& spec_plan(current, action, now) matches Ok((patch, event)) ==> {
                &&& patch.cancel_reason == Some(reason)
                &&& patch.status is None
                &&& event == (ExecutionEventData::CancelRequested { reason })
                &&& spec_patched(current, patch).cancel_requested
            }
        },
        action is SettleCancelled ==> (spec_plan(current, action, now) matches Ok((patch, event))
            ==> current.cancel_requested && event == (ExecutionEventData::Cancelled {
            reason: current.cancel_reason,
        }) && patch.status == Some(ExecutionStatus::Cancelled)),
{
}

/// Settling requires a running or waiting execution.
pub fn require_active(current: &ExecutionRecord, action: &'static str) -> (r: Result<
    (),
    InvalidTransition,
>)
    ensures
        r is Ok <==> is_active(current.status),
        r matches Err(e) ==> e == (InvalidTransition { from: current.status, action }),
{
    match current.status {
        ExecutionStatus::Running | ExecutionStatus::Waiting => Ok(()),
        _ => Err(InvalidTransition { from: current.status, action }),
    }
}

/// Decides one lifecycle action on the current record.
///
/// Start needs a pending execution with no cancellation requested; a cancel
/// request needs a non-terminal one; success and failure need a running or
/// waiting one; settling a cancellation needs a non-terminal execution whose
/// cancellation was durably requested.
pub fn plan_transition(current: &ExecutionRecord, action: ExecutionAction, now: Timestamp) -> (r: Result<
    (ExecutionPatch, ExecutionEventData),
    InvalidTransition,
>)
    ensures
        r == spec_plan(*current, action, now),
{
    match action {
        ExecutionAction::Start => {
            if current.status != ExecutionStatus::Pending || current.cancel_requested {
                return Err(InvalidTransition { from: current.status, action: "start" });
            }
            let patch = ExecutionPatch {
                status: Some(ExecutionStatus::Running),
                started_at: Some(now),
                finished_at: None,
                cancel_reason: None,
                result_artifact: None,
                error: None,
            };
            Ok((patch, ExecutionEventData::Started))
        },
        ExecutionAction::RequestCancel(reason) => {
            if current.status.is_terminal() {
                return Err(InvalidTransition { from: current.status, action: "request_cancel" });
            }
            let patch = ExecutionPatch {
                status: None,
                started_at: None,
                finished_at: None,
                cancel_reason: Some(reason.clone()),
                result_artifact: None,
                error: None,
            };
            Ok((patch, ExecutionEventData::CancelRequested { reason }))
        },
        ExecutionAction::Succeed(result_artifact) => {
            require_active(current, "succeed")?;
            let patch = ExecutionPatch {
                status: Some(ExecutionStatus::Succeeded),
                started_at: None,
                finished_at: Some(now),
                cancel_reason: None,
                result_artifact: crate::types::clone_artifact(&result_artifact),
                error: None,
            };
            Ok((patch, ExecutionEventData::Succeeded { result_artifact }))
        },
        ExecutionAction::Fail(error) => {
            require_active(current, "fail")?;
            let patch = ExecutionPatch {
                status: Some(ExecutionStatus::Failed),
                started_at: None,
                finished_at: Some(now),
                cancel_reason: None,
                result_artifact: None,
                error: Some(error.clone()),
            };
            Ok((patch, ExecutionEventData::Failed { error }))
        },
        ExecutionAction::SettleCancelled => {
            if current.status.is_terminal() || !current.cancel_requested {
                return Err(InvalidTransition { from: current.status, action: "settle_cancelled" });
            }
            let patch = ExecutionPatch {
                status: Some(ExecutionStatus::Cancelled),
                started_at: None,
                finished_at: Some(now),
                cancel_reason: None,
                result_artifact: None,
                error: None,
            };
            Ok((patch, ExecutionEventData::Cancelled { reason: clone_reason(&current.cancel_reason) }))
        },
    }
}

/// The part of a record that its history determines.
pub open spec fn projection_of(r: ExecutionRecord) -> ExecutionProjection {
    ExecutionProjection {
        kind: r.kind,
        configuration_digest: r.configuration_digest,
        status: r.status,
        cancel_requested: r.cancel_requested,
        cancel_reason: r.cancel_reason,
        result_artifact: r.result_artifact,
        error: r.error,
        version: r.version,
    }
}

pub open spec fn same_text_option(a: Option<String>, b: Option<String>) -> bool {
    match (a, b) {
        (None, None) => true,
        (Some(x), Some(y)) => x@ == y@,
        _ => false,
    }
}

pub open spec fn same_reason(a: Option<CancelReason>, b: Option<CancelReason>) -> bool {
    match (a, b) {
        (None, None) => true,
        (Some(x), Some(y)) => x.code@ == y.code@ && same_text_option(x.message, y.message),
        _ => false,
    }
}

pub open spec fn same_artifact(a: Option<ArtifactRef>, b: Option<ArtifactRef>) -> bool {
    match (a, b) {
        (None, None) => true,
        (Some(x), Some(y)) => x.id == y.id && x.digest@ == y.digest@ && x.media_type@
            == y.media_type@ && x.size_bytes == y.size_bytes && x.storage_uri@ == y.storage_uri@,
        _ => false,
    }
}

/// Both errors are absent, or both hold the same document, members in any
/// order.
pub open spec fn same_error(a: Option<JsonValue>, b: Option<JsonValue>) -> bool {
    match (a, b) {
        (None, None) => true,
        (Some(x), Some(y)) => same_document(x, y),
        _ => false,
    }
}

/// The stored record says what its history says.
pub open spec fn spec_record_agrees(record: ExecutionRecord, reduced: ExecutionProjection) -> bool {
    &&& reduced.kind@ == record.kind@
    &&& reduced.configuration_digest@ == record.configuration_digest@
    &&& reduced.status == record.status
    &&& reduced.cancel_requested == record.cancel_requested
    &&& same_reason(reduced.cancel_reason, record.cancel_reason)
    &&& same_artifact(reduced.result_artifact, record.result_artifact)
    &&& same_error(reduced.error, record.error)
    &&& reduced.version == record.version
}

fn same_text_opt(a: &Option<String>, b: &Option<String>) -> (r: bool)
    ensures
        r == same_text_option(*a, *b),
{
    match (a, b) {
        (None, None) => true,
        (Some(x), Some(y)) => *x == *y,
        _ => false,
    }
}

/// Whether the stored record agrees with the reduction of its history.
pub fn record_agrees(record: &ExecutionRecord, reduced: &ExecutionProjection) -> (r: bool)
    ensures
        r == spec_record_agrees(*record, *reduced),
{
    if !crate::text::str_equal(reduced.kind.as_str(), record.kind.as_str()) {
        return false;
    }
    if !(reduced.configuration_digest == record.configuration_digest) {
        return false;
    }
    if reduced.status != record.status || reduced.cancel_requested != record.cancel_requested {
        return false;
    }
    let reasons = match (&reduced.cancel_reason, &record.cancel_reason) {
        (None, None) => true,
        (Some(x), Some(y)) => x.code == y.code && same_text_opt(&x.message, &y.message),
        _ => false,
    };
    if !reasons {
        return false;
    }
    let artifacts = match (&reduced.result_artifact, &record.result_artifact) {
        (None, None) => true,
        (Some(x), Some(y)) => x.id == y.id && x.digest == y.digest && x.media_type == y.media_type
            && x.size_bytes == y.size_bytes && x.storage_uri == y.storage_uri,
        _ => false,
    };
    if !artifacts {
        return false;
    }
    let errors = match (&reduced.error, &record.error) {
        (None, None) => true,
        (Some(x), Some(y)) => x.same_document_as(y),
        _ => false,
    };
    if !errors {
        return false;
    }
    reduced.version == record.version
}

/// A projection that is not terminal has no result and no error.
pub open spec fn unsettled_is_clean(p: ExecutionProjection) -> bool {
    !p.status.spec_is_terminal() ==> p.result_artifact is None && p.error is None
}

proof fn lemma_reduce_from_keeps_clean(p: ExecutionProjection, events: Seq<ExecutionEvent>, i: int)
    requires
        unsettled_is_clean(p),
        0 <= i,
    ensures
        reduce_from(p, events, i) matches Ok(q) ==> unsettled_is_clean(q),
    decreases events.len() - i,
{
    if i < events.len() {
        if let Ok(q) = reduce_step(p, events[i]) {
            lemma_reduce_from_keeps_clean(q, events, i + 1);
        }
    }
}

proof fn lemma_reduce_from_push(
    p: ExecutionProjection,
    events: Seq<ExecutionEvent>,
    e: ExecutionEvent,
    i: int,
)
    requires
        0 <= i <= events.len(),
    ensures
        reduce_from(p, events.push(e), i) == (match reduce_from(p, events, i) {
            Ok(q) => reduce_step(q, e),
            Err(err) => Err(err),
        }),
    decreases events.len() - i,
{
    if i < events.len() {
        assert(events.push(e)[i] == events[i]);
        if let Ok(q) = reduce_step(p, events[i]) {
            lemma_reduce_from_push(q, events, e, i + 1);
        }
    } else {
        assert(events.push(e)[i] == e);
        if let Ok(q) = reduce_step(p, e) {
            assert(reduce_from(q, events.push(e), i + 1) == Ok::<ExecutionProjection, crate::runtime::ReductionError>(q));
        }
    }
}

/// A history extended by one event reduces to its old reduction with that
/// event applied.
pub proof fn lemma_reduce_events_push(events: Seq<ExecutionEvent>, e: ExecutionEvent)
    requires
        events.len() > 0,
    ensures
        reduce_events(events.push(e)) == (match reduce_events(events) {
            Ok(q) => reduce_step(q, e),
            Err(err) => Err(err),
        }),
{
    assert(events.push(e)[0] == events[0]);
    if events[0].sequence == 1 {
        if let ExecutionEventData::Created { kind, configuration_digest } = events[0].data {
            lemma_reduce_from_push(created_projection(kind, configuration_digest), events, e, 1);
        }
    }
}

proof fn lemma_reduce_from_version(p: ExecutionProjection, events: Seq<ExecutionEvent>, i: int)
    requires
        0 <= i <= events.len(),
        p.version == i,
    ensures
        reduce_from(p, events, i) matches Ok(q) ==> q.version == events.len(),
    decreases events.len() - i,
{
    if i < events.len() {
        if let Ok(q) = reduce_step(p, events[i]) {
            lemma_reduce_from_version(q, events, i + 1);
        }
    }
}

/// Whether an event among positions 1 to `i - 1` requests cancellation.
pub open spec fn cancel_asked(events: Seq<ExecutionEvent>, i: int) -> bool {
    exists|k: int| 1 <= k < i && #[trigger] events[k].data is CancelRequested
}

proof fn lemma_reduce_from_facts(p: ExecutionProjection, events: Seq<ExecutionEvent>, i: int)
    requires
        1 <= i <= events.len(),
        p.cancel_requested == cancel_asked(events, i),
    ensures
        reduce_from(p, events, i) matches Ok(q) ==> q.kind == p.kind && q.configuration_digest
            == p.configuration_digest && q.cancel_requested == cancel_asked(
            events,
            events.len() as int,
        ),
    decreases events.len() - i,
{
    if i < events.len() {
        if let Ok(q) = reduce_step(p, events[i]) {
            if events[i].data is CancelRequested {
                assert(cancel_asked(events, i + 1));
            } else {
                if cancel_asked(events, i + 1) {
                    let k = choose|k: int| 1 <= k < i + 1 && #[trigger] events[k].data is CancelRequested;
                    assert(k < i);
                }
                if cancel_asked(events, i) {
                    let k = choose|k: int| 1 <= k < i && #[trigger] events[k].data is CancelRequested;
                    assert(1 <= k < i + 1);
                }
            }
            lemma_reduce_from_facts(q, events, i + 1);
        }
    }
}

/// What every reduced history keeps of its first event and its length: the
/// projection's version is the number of events, its kind and configuration
/// digest are those of the creation event, and cancellation is requested
/// exactly when some event requested it.
pub proof fn lemma_reduced_history_facts(events: Seq<ExecutionEvent>)
    ensures
        reduce_events(events) matches Ok(p) ==> {
            &&& p.version == events.len()
            &&& events[0].data matches ExecutionEventData::Created { kind, configuration_digest }
            &&& p.kind == kind
            &&& p.configuration_digest == configuration_digest
            &&& p.cancel_requested == cancel_asked(events, events.len() as int)
        },
{
    if events.len() > 0 && events[0].sequence == 1 {
        if let ExecutionEventData::Created { kind, configuration_digest } = events[0].data {
            let c = created_projection(kind, configuration_digest);
            lemma_reduce_from_version(c, events, 1);
            lemma_reduce_from_facts(c, events, 1);
        }
    }
}

/// An event that moves an execution to a terminal status.
pub open spec fn settles(d: ExecutionEventData) -> bool {
    d is Succeeded || d is Failed || d is Cancelled || d is TimedOut || d is RequiresIntervention
}

proof fn lemma_reduce_from_settles(p: ExecutionProjection, events: Seq<ExecutionEvent>, i: int)
    requires
        1 <= i <= events.len(),
        p.version == i,
        !p.status.spec_is_terminal(),
        (p.error is Some) == (p.status is Failed),
    ensures
        reduce_from(p, events, i) matches Ok(q) ==> {
            &&& (q.error is Some) == (q.status is Failed)
            &&& forall|k: int| i <= k < events.len() ==> #[trigger] events[k].sequence == k + 1
            &&& q.status.spec_is_terminal() ==> i < events.len() && settles(events.last().data)
                && forall|k: int| i <= k < events.len() - 1 ==> !settles(#[trigger] events[k].data)
            &&& !q.status.spec_is_terminal() ==> forall|k: int|
                i <= k < events.len() ==> !settles(#[trigger] events[k].data)
        },
    decreases events.len() - i,
{
    if i < events.len() {
        if let Ok(q) = reduce_step(p, events[i]) {
            if q.status.spec_is_terminal() {
                if i + 1 < events.len() {
                    assert(reduce_step(q, events[i + 1]) is Err);
                } else {
                    assert(reduce_from(q, events, i + 1) == Ok::<ExecutionProjection, ReductionError>(q));
                }
            } else {
                lemma_reduce_from_settles(q, events, i + 1);
            }
        }
    }
}

/// How a reduced history settles: its events carry the sequences 1 to n,
/// so its version is the last event's sequence; an error is held exactly
/// when the execution failed; and a terminal status comes from the last
/// event alone, while a history that is not terminal holds no settling event.
pub proof fn lemma_reduced_history_settles(events: Seq<ExecutionEvent>)
    ensures
        reduce_events(events) matches Ok(p) ==> {
            &&& forall|k: int| 0 <= k < events.len() ==> #[trigger] events[k].sequence == k + 1
            &&& p.version == events.last().sequence
            &&& (p.error is Some) == (p.status is Failed)
            &&& p.status.spec_is_terminal() ==> settles(events.last().data) && forall|k: int|
                0 <= k < events.len() - 1 ==> !settles(#[trigger] events[k].data)
            &&& !p.status.spec_is_terminal() ==> forall|k: int|
                0 <= k < events.len() ==> !settles(#[trigger] events[k].data)
        },
{
    lemma_reduced_history_facts(events);
    if events.len() > 0 && events[0].sequence == 1 {
        if let ExecutionEventData::Created { kind, configuration_digest } = events[0].data {
            let c = created_projection(kind, configuration_digest);
            lemma_reduce_from_settles(c, events, 1);
        }
    }
}

/// Whether an execution in `status`, with or without a cancellation
/// request, accepts an event carrying `data`.
pub open spec fn event_allowed(
    status: ExecutionStatus,
    cancel_requested: bool,
    data: ExecutionEventData,
) -> bool {
    match data {
        ExecutionEventData::Created { .. } => false,
        ExecutionEventData::Started => status is Pending,
        ExecutionEventData::CancelRequested { .. } => true,
        ExecutionEventData::Cancelled { .. } => cancel_requested,
        _ => is_active(status),
    }
}

/// The transition table of a history: after any history that reduces, the
/// next event in sequence meets a terminal status with `EventAfterTerminal`;
/// otherwise it is accepted exactly when the status and the cancellation
/// request allow it, and refused as an invalid transition when they do not.
pub proof fn lemma_next_event(events: Seq<ExecutionEvent>, e: ExecutionEvent)
    requires
        reduce_events(events) is Ok,
        e.sequence == events.len() + 1,
    ensures
        ({
            let p = reduce_events(events)->Ok_0;
            let next = reduce_events(events.push(e));
            &&& p.status.spec_is_terminal() ==> next == Err::<ExecutionProjection, ReductionError>(
                ReductionError::EventAfterTerminal(p.status),
            )
            &&& !p.status.spec_is_terminal() ==> (next is Ok <==> event_allowed(
                p.status,
                p.cancel_requested,
                e.data,
            ))
            &&& !p.status.spec_is_terminal() && !event_allowed(p.status, p.cancel_requested, e.data)
                ==> next == Err::<ExecutionProjection, ReductionError>(
                ReductionError::InvalidTransition { event: e.data.spec_kind(), status: p.status },
            )
        }),
{
    assert(events.len() > 0);
    lemma_reduce_events_push(events, e);
    if let ExecutionEventData::Created { kind, configuration_digest } = events[0].data {
        lemma_reduce_from_version(created_projection(kind, configuration_digest), events, 1);
    }
}

proof fn lemma_cancel_requests(p: ExecutionProjection, events: Seq<ExecutionEvent>, i: int, end: int)
    requires
        0 <= i < end <= events.len(),
        p.version == i,
        p.status is Running,
        forall|k: int| i <= k < end ==> #[trigger] events[k].sequence == k + 1,
        forall|k: int| i <= k < end ==> #[trigger] events[k].data is CancelRequested,
    ensures
        reduce_from(p, events, i) == reduce_from(
            ExecutionProjection {
                cancel_requested: true,
                cancel_reason: Some(events[end - 1].data->CancelRequested_reason),
                version: end as u64,
                ..p
            },
            events,
            end,
        ),
    decreases end - i,
{
    let q = ExecutionProjection {
        cancel_requested: true,
        cancel_reason: Some(events[i].data->CancelRequested_reason),
        version: (i + 1) as u64,
        ..p
    };
    assert(reduce_step(p, events[i]) == Ok::<ExecutionProjection, ReductionError>(q));
    if i + 1 < end {
        lemma_cancel_requests(q, events, i + 1, end);
    }
}

/// Repeated cancellation requests reduce deterministically: a created and
/// started execution that takes any number of cancellation requests and
/// then its cancellation ends cancelled, at the version of its last event,
/// with the reason of the last request.
pub proof fn lemma_repeated_cancel_requests(events: Seq<ExecutionEvent>, n: int)
    requires
        n >= 1,
        events.len() == n + 3,
        forall|k: int| 0 <= k < events.len() ==> #[trigger] events[k].sequence == k + 1,
        events[0].data is Created,
        events[1].data is Started,
        forall|k: int| 2 <= k < n + 2 ==> #[trigger] events[k].data is CancelRequested,
        events[n + 2].data == (ExecutionEventData::Cancelled { reason: None }),
    ensures
        reduce_events(events) matches Ok(p) && p.status == ExecutionStatus::Cancelled && p.version
            == events.len() && p.cancel_requested && p.cancel_reason == Some(
            events[n + 1].data->CancelRequested_reason,
        ),
{
    let created = created_projection(
        events[0].data->Created_kind,
        events[0].data->Created_configuration_digest,
    );
    assert(events[0].sequence == 1);
    assert(events[1].sequence == 2);
    let running = ExecutionProjection { status: ExecutionStatus::Running, version: 2, ..created };
    assert(reduce_step(created, events[1]) == Ok::<ExecutionProjection, ReductionError>(running));
    assert(reduce_from(created, events, 1) == reduce_from(running, events, 2));
    lemma_cancel_requests(running, events, 2, n + 2);
    let asked = ExecutionProjection {
        cancel_requested: true,
        cancel_reason: Some(events[n + 1].data->CancelRequested_reason),
        version: (n + 2) as u64,
        ..running
    };
    assert(events[n + 2].sequence == n + 3);
    let done = ExecutionProjection {
        status: ExecutionStatus::Cancelled,
        version: (n + 3) as u64,
        ..asked
    };
    assert(reduce_step(asked, events[n + 2]) == Ok::<ExecutionProjection, ReductionError>(done));
    assert(reduce_from(done, events, n + 3) == Ok::<ExecutionProjection, ReductionError>(done));
}

/// A new execution's record is what its creation event reduces to.
pub proof fn lemma_created_record_matches_history(new: NewExecution)
    ensures
        reduce_events(seq![spec_created_event(new)]) == Ok::<
            ExecutionProjection,
            crate::runtime::ReductionError,
        >(projection_of(spec_created_record(new))),
{
    assert(projection_of(spec_created_record(new)) == created_projection(
        new.kind,
        new.configuration_digest,
    ));
}

/// Every action the service accepts keeps the stored record equal to what
/// its history reduces to: when the record agrees with its events before the
/// action, the patched record agrees with the events plus the new one.
pub proof fn lemma_accepted_action_matches_history(
    events: Seq<ExecutionEvent>,
    current: ExecutionRecord,
    action: ExecutionAction,
    now: Timestamp,
    mutation: ExecutionMutation,
)
    requires
        reduce_events(events) == Ok::<ExecutionProjection, crate::runtime::ReductionError>(
            projection_of(current),
        ),
        spec_plan(current, action, now) is Ok,
        mutation.patch == spec_plan(current, action, now)->Ok_0.0,
        mutation.event == spec_plan(current, action, now)->Ok_0.1,
        mutation.expected_version == current.version,
        mutation.execution_id == current.id,
        current.version < max_stored_version(),
    ensures
        reduce_events(events.push(spec_mutation_event(current, mutation))) == Ok::<
            ExecutionProjection,
            crate::runtime::ReductionError,
        >(projection_of(spec_patched(current, mutation.patch))),
{
    let p = projection_of(current);
    assert(events.len() > 0);
    lemma_reduce_events_push(events, spec_mutation_event(current, mutation));
    if events[0].sequence == 1 {
        if let ExecutionEventData::Created { kind, configuration_digest } = events[0].data {
            lemma_reduce_from_keeps_clean(created_projection(kind, configuration_digest), events, 1);
        }
    }
    assert(unsettled_is_clean(p));
    let e = spec_mutation_event(current, mutation);
    let after = projection_of(spec_patched(current, mutation.patch));
    assert(reduce_step(p, e) == Ok::<ExecutionProjection, crate::runtime::ReductionError>(after));
}

/// Why an execution service operation failed.
#[derive(Debug, PartialEq)]
pub enum RuntimeError {
    Store(StoreError),
    InvalidTransition(InvalidTransition),
    CorruptProjection(String),
    /// The text of an artifact I/O error.
    Io(String),
}

/// A source of the current instant.
pub trait Clock {
    fn now(&self) -> Timestamp;
}

/// Calls `chrono::Utc::now` and takes seconds and nanoseconds since the
/// epoch. The result depends on the clock, so nothing is claimed of it.
#[verifier::external_body]
fn system_now() -> Timestamp {
    let now = chrono::Utc::now();
    Timestamp { seconds: now.timestamp(), nanos: now.timestamp_subsec_nanos() }
}

/// The system's clock.
#[derive(Clone, Copy, Debug, Default)]
pub struct SystemClock;

impl Clock for SystemClock {
    fn now(&self) -> Timestamp {
        system_now()
    }
}

/// A stored record together with the reduction of its history.
#[derive(Debug, PartialEq)]
pub struct ExecutionInspection {
    pub record: ExecutionRecord,
    pub reduced: ExecutionProjection,
}

/// Calls `format!` with `{:?}` on the record and the projection. Nothing is
/// claimed of the text.
#[verifier::external_body]
fn mismatch_text(record: &ExecutionRecord, reduced: &ExecutionProjection) -> String {
    format!("record={record:?} reduced={reduced:?}")
}

/// Inspects a stored record against its whole history: the history must
/// reduce, and the record must say what the history says.
pub fn inspect_history(record: ExecutionRecord, events: &[ExecutionEvent]) -> (r: Result<
    ExecutionInspection,
    RuntimeError,
>)
    ensures
        match reduce_events(events@) {
            Err(e) => r matches Err(RuntimeError::CorruptProjection(m)) && m@ == reduction_text(e),
            Ok(p) => if spec_record_agrees(record, p) {
                r == Ok::<ExecutionInspection, RuntimeError>(
                    ExecutionInspection { record, reduced: p },
                )
            } else {
                r is Err && r->Err_0 is CorruptProjection
            },
        },
{
    let reduced = match reduce_execution_events(events) {
        Ok(p) => p,
        Err(e) => {
            return Err(RuntimeError::CorruptProjection(e.to_text()));
        },
    };
    if !record_agrees(&record, &reduced) {
        return Err(RuntimeError::CorruptProjection(mismatch_text(&record, &reduced)));
    }
    Ok(ExecutionInspection { record, reduced })
}

/// The digest an execution's configuration is pinned by: SHA-256 of its
/// bytes, as lowercase hex.
pub fn configuration_digest(configuration: &[u8]) -> (r: String)
    ensures
        r@ == crate::tools::digest::spec_sha256_hex(configuration@),
        r@.len() == 64,
{
    crate::tools::digest::sha256_hex(configuration)
}

/// Where a watcher resumes after a page of events: after the last event
/// delivered, or where it was when the page is empty.
pub fn watch_cursor(cursor: u64, page: &[ExecutionEvent]) -> (r: u64)
    ensures
        page@.len() == 0 ==> r == cursor,
        page@.len() > 0 ==> r == page@.last().sequence,
{
    if page.len() == 0 {
        cursor
    } else {
        page[page.len() - 1].sequence
    }
}

/// A watcher stops once the execution is terminal and no event is left
/// after its cursor; otherwise it waits and polls again.
pub fn watch_done(status: ExecutionStatus, none_left: bool) -> (r: bool)
    ensures
        r == (status.spec_is_terminal() && none_left),
{
    status.is_terminal() && none_left
}

} // verus!
