use workweave::ids::{
    parse_rfc3339, parse_uuid_text, uuid_text, ArtifactId, EventId, ExecutionId, Timestamp,
};
use workweave::json::JsonValue;
use workweave::runtime::{reduce_execution_events, ReductionError};
use workweave::service::{
    configuration_digest, inspect_history, plan_transition, watch_cursor, watch_done,
    ExecutionAction, InvalidTransition, RuntimeError,
};
use workweave::store::{apply_mutation, created_execution, ExecutionMutation, NewExecution, StoreError};
use workweave::text::{decimal_text, decimal_text_u64, is_blank};
use workweave::types::{
    ArtifactRef, CancelReason, EventVisibility, ExecutionEvent, ExecutionEventData, ExecutionKind,
    ExecutionRecord, ExecutionStatus,
};

fn at(seconds: i64) -> Timestamp {
    Timestamp::from_unix(seconds, 0)
}

fn new_execution() -> NewExecution {
    NewExecution {
        id: ExecutionId::from_u128(7),
        kind: ExecutionKind::new("demo").unwrap(),
        configuration_digest: configuration_digest(b"{}"),
        created_at: at(100),
        deadline: None,
        event_id: EventId::from_u128(1000),
    }
}

/// Plans `action` at `now` and applies it to `record`, appending the event.
fn act(
    record: &ExecutionRecord,
    events: &mut Vec<ExecutionEvent>,
    action: ExecutionAction,
    now: i64,
) -> ExecutionRecord {
    let (patch, event) = plan_transition(record, action, at(now)).expect("transition allowed");
    let mutation = ExecutionMutation {
        execution_id: record.id,
        expected_version: record.version,
        patch,
        event_id: EventId::from_u128(1000 + events.len() as u128),
        occurred_at: at(now),
        visibility: EventVisibility::Public,
        event,
    };
    let (next, appended) = apply_mutation(record, &mutation).expect("mutation applies");
    events.push(appended);
    next
}

fn event(sequence: u64, data: ExecutionEventData) -> ExecutionEvent {
    ExecutionEvent {
        id: EventId::from_u128(sequence as u128),
        execution_id: ExecutionId::from_u128(7),
        sequence,
        occurred_at: at(100 + sequence as i64),
        payload_version: 1,
        visibility: EventVisibility::Public,
        data,
    }
}

fn created() -> ExecutionEventData {
    ExecutionEventData::Created {
        kind: ExecutionKind::new("demo").unwrap(),
        configuration_digest: "digest".to_string(),
    }
}

#[test]
fn created_record_agrees_with_its_first_event() {
    let (record, first) = created_execution(&new_execution());
    assert_eq!(record.status, ExecutionStatus::Pending);
    assert_eq!(record.version, 1);
    assert_eq!(first.sequence, 1);
    let reduced = reduce_execution_events(&[first.clone()]).unwrap();
    assert_eq!(reduced.status, ExecutionStatus::Pending);
    assert_eq!(reduced.version, 1);
    let inspection = inspect_history(record.clone(), &[first]).unwrap();
    assert_eq!(inspection.record, record);
}

#[test]
fn accepted_actions_keep_record_and_history_in_agreement() {
    let (record, first) = created_execution(&new_execution());
    let mut events = vec![first];
    let record = act(&record, &mut events, ExecutionAction::Start, 101);
    assert_eq!(record.status, ExecutionStatus::Running);
    assert_eq!(record.started_at, Some(at(101)));
    let artifact = ArtifactRef {
        id: ArtifactId::from_u128(9),
        digest: "abc".to_string(),
        media_type: "text/plain".to_string(),
        size_bytes: 3,
        storage_uri: "file:///tmp/abc".to_string(),
    };
    let record = act(&record, &mut events, ExecutionAction::Succeed(Some(artifact.clone())), 102);
    assert_eq!(record.status, ExecutionStatus::Succeeded);
    assert_eq!(record.finished_at, Some(at(102)));
    assert_eq!(record.result_artifact, Some(artifact.clone()));
    assert_eq!(record.version, 3);
    let sequences: Vec<u64> = events.iter().map(|e| e.sequence).collect();
    assert_eq!(sequences, vec![1, 2, 3]);

    let reduced = reduce_execution_events(&events).unwrap();
    assert_eq!(reduced.status, ExecutionStatus::Succeeded);
    assert_eq!(reduced.result_artifact, Some(artifact));
    assert_eq!(reduced.version, 3);
    assert!(inspect_history(record, &events).is_ok());
}

#[test]
fn cancellation_settles_only_after_a_durable_request() {
    let (record, first) = created_execution(&new_execution());
    let mut events = vec![first];
    let record = act(&record, &mut events, ExecutionAction::Start, 101);
    assert_eq!(
        plan_transition(&record, ExecutionAction::SettleCancelled, at(102)).unwrap_err(),
        InvalidTransition { from: ExecutionStatus::Running, action: "settle_cancelled" }
    );
    let reason = CancelReason::new("user", Some("stop".to_string()));
    let record = act(&record, &mut events, ExecutionAction::RequestCancel(reason.clone()), 102);
    assert!(record.cancel_requested);
    assert_eq!(record.status, ExecutionStatus::Running);
    let record = act(&record, &mut events, ExecutionAction::SettleCancelled, 103);
    assert_eq!(record.status, ExecutionStatus::Cancelled);
    assert_eq!(record.cancel_reason, Some(reason.clone()));
    assert!(matches!(
        &events[3].data,
        ExecutionEventData::Cancelled { reason: Some(r) } if *r == reason
    ));
    let reduced = reduce_execution_events(&events).unwrap();
    assert_eq!(reduced.status, ExecutionStatus::Cancelled);
    assert!(inspect_history(record, &events).is_ok());
}

#[test]
fn invalid_transitions_are_refused_with_the_action_name() {
    let (record, _) = created_execution(&new_execution());
    assert_eq!(
        plan_transition(&record, ExecutionAction::Succeed(None), at(101)).unwrap_err(),
        InvalidTransition { from: ExecutionStatus::Pending, action: "succeed" }
    );
    assert_eq!(
        plan_transition(&record, ExecutionAction::Fail(JsonValue::string("x")), at(101)).unwrap_err(),
        InvalidTransition { from: ExecutionStatus::Pending, action: "fail" }
    );
    let mut events = Vec::new();
    let running = act(&record, &mut events, ExecutionAction::Start, 101);
    assert_eq!(
        plan_transition(&running, ExecutionAction::Start, at(102)).unwrap_err(),
        InvalidTransition { from: ExecutionStatus::Running, action: "start" }
    );
    let failed = act(&running, &mut events, ExecutionAction::Fail(JsonValue::string("boom")), 102);
    assert_eq!(failed.status, ExecutionStatus::Failed);
    let reason = CancelReason::new("late", None);
    assert_eq!(
        plan_transition(&failed, ExecutionAction::RequestCancel(reason), at(103)).unwrap_err(),
        InvalidTransition { from: ExecutionStatus::Failed, action: "request_cancel" }
    );
}

#[test]
fn stale_expected_version_is_a_conflict() {
    let (record, _) = created_execution(&new_execution());
    let (patch, event) = plan_transition(&record, ExecutionAction::Start, at(101)).unwrap();
    let mutation = ExecutionMutation {
        execution_id: record.id,
        expected_version: 5,
        patch,
        event_id: EventId::from_u128(2),
        occurred_at: at(101),
        visibility: EventVisibility::Public,
        event,
    };
    assert_eq!(
        apply_mutation(&record, &mutation).unwrap_err(),
        StoreError::Conflict {
            id: "00000000-0000-0000-0000-000000000007".to_string(),
            expected: 5,
            actual: 1,
        }
    );
}

#[test]
fn reduction_errors_name_the_first_fault() {
    assert_eq!(reduce_execution_events(&[]).unwrap_err(), ReductionError::Empty);
    assert_eq!(
        reduce_execution_events(&[event(2, created())]).unwrap_err(),
        ReductionError::Sequence { expected: 1, actual: 2 }
    );
    assert_eq!(
        reduce_execution_events(&[event(1, ExecutionEventData::Started)]).unwrap_err(),
        ReductionError::MissingCreated
    );
    assert_eq!(
        reduce_execution_events(&[event(1, created()), event(3, ExecutionEventData::Started)])
            .unwrap_err(),
        ReductionError::Sequence { expected: 2, actual: 3 }
    );
    assert_eq!(
        reduce_execution_events(&[event(1, created()), event(2, ExecutionEventData::TimedOut)])
            .unwrap_err(),
        ReductionError::InvalidTransition {
            event: "execution_timed_out",
            status: ExecutionStatus::Pending
        }
    );
    assert_eq!(
        reduce_execution_events(&[
            event(1, created()),
            event(2, ExecutionEventData::Started),
            event(3, ExecutionEventData::TimedOut),
            event(4, ExecutionEventData::Started),
        ])
        .unwrap_err(),
        ReductionError::EventAfterTerminal(ExecutionStatus::TimedOut)
    );
}

#[test]
fn reduction_error_texts() {
    assert_eq!(ReductionError::Empty.to_text(), "execution event history is empty");
    assert_eq!(
        ReductionError::Sequence { expected: 2, actual: 13 }.to_text(),
        "event sequence 13 is not the expected contiguous sequence 2"
    );
    assert_eq!(ReductionError::MissingCreated.to_text(), "first event is not execution_created");
    assert_eq!(
        ReductionError::InvalidTransition {
            event: "execution_started",
            status: ExecutionStatus::Running
        }
        .to_text(),
        "invalid event execution_started while execution is running"
    );
    assert_eq!(
        ReductionError::EventAfterTerminal(ExecutionStatus::BudgetExhausted).to_text(),
        "event exists after terminal status budget_exhausted"
    );
}

#[test]
fn a_record_that_disagrees_with_its_history_is_corrupt() {
    let (record, first) = created_execution(&new_execution());
    let mut stale = record.clone();
    stale.status = ExecutionStatus::Running;
    assert!(matches!(
        inspect_history(stale, &[first]),
        Err(RuntimeError::CorruptProjection(_))
    ));
    assert_eq!(
        inspect_history(record, &[]).unwrap_err(),
        RuntimeError::CorruptProjection("execution event history is empty".to_string())
    );
}

#[test]
fn status_names_round_trip_and_unknown_names_reject() {
    let all = [
        ExecutionStatus::Pending,
        ExecutionStatus::Running,
        ExecutionStatus::Waiting,
        ExecutionStatus::Succeeded,
        ExecutionStatus::Failed,
        ExecutionStatus::Cancelled,
        ExecutionStatus::TimedOut,
        ExecutionStatus::BudgetExhausted,
        ExecutionStatus::PolicyDenied,
        ExecutionStatus::RequiresIntervention,
    ];
    for status in all {
        assert_eq!(ExecutionStatus::parse(status.as_str()).unwrap(), status);
    }
    assert_eq!(ExecutionStatus::TimedOut.as_str(), "timed_out");
    assert!(!ExecutionStatus::Waiting.is_terminal());
    assert!(ExecutionStatus::PolicyDenied.is_terminal());
    let error = ExecutionStatus::parse("paused").unwrap_err();
    assert_eq!(error.to_text(), "unknown execution status: paused");
    assert_eq!(EventVisibility::parse("sensitive"), Some(EventVisibility::Sensitive));
    assert_eq!(EventVisibility::parse("secret"), None);
}

#[test]
fn execution_kind_rejects_blank_names() {
    assert_eq!(ExecutionKind::new("").unwrap_err(), "execution kind must not be empty");
    assert_eq!(ExecutionKind::new(" \t ").unwrap_err(), "execution kind must not be empty");
    assert_eq!(ExecutionKind::new("demo").unwrap().as_str(), "demo");
    assert_eq!(ExecutionKind::synthetic().as_str(), "synthetic");
    assert!(is_blank("\n "));
    assert!(!is_blank(" a "));
}

#[test]
fn configuration_digest_is_sha256_hex() {
    assert_eq!(
        configuration_digest(b""),
        "e3b0c44298fc1c149afbf4c8996fb92427ae41e4649b934ca495991b7852b855"
    );
    assert_eq!(
        configuration_digest(b"abc"),
        "ba7816bf8f01cfea414140de5dae2223b00361a396177a9cb410ff61f20015ad"
    );
}

#[test]
fn identifiers_print_and_parse_as_uuids() {
    assert_eq!(uuid_text(0), "00000000-0000-0000-0000-000000000000");
    let id = ExecutionId::from_u128(0x0123_4567_89ab_cdef_0123_4567_89ab_cdef);
    assert_eq!(id.to_text(), "01234567-89ab-cdef-0123-456789abcdef");
    assert_eq!(parse_uuid_text(&id.to_text()), Ok(id.as_u128()));
    assert!(parse_uuid_text("not-a-uuid").is_err());
}

#[test]
fn timestamps_parse_from_rfc3339() {
    assert_eq!(parse_rfc3339("1970-01-01T00:00:00Z"), Ok(at(0)));
    assert_eq!(
        parse_rfc3339("2024-01-01T00:00:01.5+00:00"),
        Ok(Timestamp::from_unix(1_704_067_201, 500_000_000))
    );
    assert!(parse_rfc3339("yesterday").is_err());
}

#[test]
fn decimal_texts() {
    assert_eq!(decimal_text(0), "0");
    assert_eq!(decimal_text(120), "120");
    assert_eq!(decimal_text_u64(u64::MAX), "18446744073709551615");
}

#[test]
fn repeated_cancel_requests_reduce_deterministically() {
    for n in 1..8u64 {
        let mut events = vec![event(1, created()), event(2, ExecutionEventData::Started)];
        for k in 0..n {
            events.push(event(
                3 + k,
                ExecutionEventData::CancelRequested {
                    reason: CancelReason::new(&format!("cancel-{k}"), None),
                },
            ));
        }
        events.push(event(n + 3, ExecutionEventData::Cancelled { reason: None }));
        let p = reduce_execution_events(&events).unwrap();
        assert_eq!(p.status, ExecutionStatus::Cancelled);
        assert_eq!(p.version, events.len() as u64);
        assert_eq!(p.version, n + 3);
        assert!(p.cancel_requested);
        assert_eq!(p.cancel_reason, Some(CancelReason::new(&format!("cancel-{}", n - 1), None)));
    }
}

#[test]
fn events_after_a_terminal_status_or_against_the_table_are_refused() {
    let mut events = vec![event(1, created()), event(2, ExecutionEventData::Started)];
    events.push(event(3, ExecutionEventData::TimedOut));
    let mut after = events.clone();
    after.push(event(4, ExecutionEventData::Started));
    assert_eq!(
        reduce_execution_events(&after).unwrap_err(),
        ReductionError::EventAfterTerminal(ExecutionStatus::TimedOut)
    );

    let pending = vec![event(1, created()), event(2, ExecutionEventData::Cancelled { reason: None })];
    assert_eq!(
        reduce_execution_events(&pending).unwrap_err(),
        ReductionError::InvalidTransition { event: "execution_cancelled", status: ExecutionStatus::Pending }
    );
}

#[test]
fn a_watcher_resumes_after_its_last_event_and_stops_only_when_settled() {
    let page = vec![event(4, ExecutionEventData::Started), event(5, ExecutionEventData::TimedOut)];
    assert_eq!(watch_cursor(3, &page), 5);
    assert_eq!(watch_cursor(3, &[]), 3);
    assert!(watch_done(ExecutionStatus::TimedOut, true));
    assert!(!watch_done(ExecutionStatus::TimedOut, false));
    assert!(!watch_done(ExecutionStatus::Running, true));
}
