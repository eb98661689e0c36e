use workweave::agent::history::{AgentEntry, AgentEntryData, AgentRecord, AgentRecordData};
use workweave::agent::store::{
    decode_entry, decode_record, entry_columns, plan_append, record_columns, to_i64, to_u64,
    validate_initial_run, AgentAppend, AgentRunRecord, AgentStoreError, NewAgentRun,
};
use workweave::ids::{AgentEntryId, AgentRunId, ExecutionId, ModelAttemptId, Timestamp};
use workweave::json::JsonValue;
use workweave::sqlite::coordinator::{
    check_link, check_retry, check_unlinked, decide_link, SqliteAgentCoordinator,
    SqliteAgentCoordinatorError,
};
use workweave::sqlite::physical::{
    check_declared_migrations, is_transient_failure, plan_component_migrations,
    ComponentMigration, SqliteFailureCode, SqlitePhysicalError,
};
use workweave::sqlite::stores::{
    artifact_columns, decode_artifact, decode_event, decode_execution, event_columns,
    execution_row, ExecutionRow, SqliteAgentStore, SqliteRuntimeStore,
};
use workweave::ids::{ArtifactId, EventId};
use workweave::types::{ArtifactRef, CancelReason, ExecutionEvent, ExecutionKind, ExecutionRecord};
use workweave::store::{NewExecution, StoreError};
use workweave::types::{EventVisibility, ExecutionEventData, ExecutionStatus};

fn run_id() -> AgentRunId {
    AgentRunId::from_u128(1)
}

fn ts(value: i64) -> Timestamp {
    Timestamp::from_unix(value, 0)
}

fn user(run: AgentRunId, ordinal: u64) -> AgentEntry {
    AgentEntry {
        id: AgentEntryId::from_u128(100 + ordinal as u128),
        run_id: run,
        ordinal,
        created_at: ts(ordinal as i64),
        data: AgentEntryData::UserInput { text: "hello".to_owned() },
    }
}

fn model_started(sequence: u64) -> AgentRecord {
    AgentRecord {
        run_id: run_id(),
        sequence,
        recorded_at: ts(sequence as i64),
        data: AgentRecordData::ModelAttemptStarted {
            attempt_id: ModelAttemptId::from_u128(50),
            request_ordinal: 1,
        },
    }
}

const MIGRATIONS: &[ComponentMigration] = &[
    ComponentMigration { version: 1, sql: "create table a (id integer primary key);" },
    ComponentMigration { version: 2, sql: "create table b (id integer primary key);" },
];

#[test]
fn classifies_retryable_failure_codes() {
    assert!(is_transient_failure(Some(SqliteFailureCode::DatabaseBusy)));
    assert!(is_transient_failure(Some(SqliteFailureCode::DatabaseLocked)));
    assert!(is_transient_failure(Some(SqliteFailureCode::FileLockingProtocolFailed)));
    assert!(is_transient_failure(Some(SqliteFailureCode::SchemaChanged)));
    assert!(!is_transient_failure(Some(SqliteFailureCode::Other)));
    assert!(!is_transient_failure(None));
}

#[test]
fn coordinator_rejects_different_database_paths() {
    let runtime = SqliteRuntimeStore::new("/tmp/workweave-test/runtime.db");
    let agent = SqliteAgentStore::new("/tmp/workweave-test/agent.db");
    assert!(matches!(
        SqliteAgentCoordinator::new(runtime, agent),
        Err(SqliteAgentCoordinatorError::PathMismatch)
    ));
    let runtime = SqliteRuntimeStore::new("/tmp/workweave-test/shared.db");
    let agent = SqliteAgentStore::new("/tmp/workweave-test/shared.db");
    let coordinator = SqliteAgentCoordinator::new(runtime, agent).expect("same path");
    assert_eq!(coordinator.path(), "/tmp/workweave-test/shared.db");
}

#[test]
fn migration_plans_apply_only_the_versions_past_the_ledger() {
    assert_eq!(check_declared_migrations("c", MIGRATIONS), Ok(()));
    assert_eq!(plan_component_migrations("c", MIGRATIONS, &[]), Ok(vec![0, 1]));
    assert_eq!(plan_component_migrations("c", MIGRATIONS, &[1]), Ok(vec![1]));
    assert_eq!(plan_component_migrations("c", MIGRATIONS, &[1, 2]), Ok(vec![]));
}

#[test]
fn a_future_ledger_version_fails_closed() {
    assert_eq!(
        plan_component_migrations("test_component", &MIGRATIONS[..1], &[1, 2]),
        Err(SqlitePhysicalError::FutureVersion {
            component: "test_component".to_owned(),
            current: 2,
            supported: 1,
        })
    );
}

#[test]
fn migration_gaps_are_rejected_before_any_plan() {
    let gapped = &[ComponentMigration { version: 2, sql: "create table x (id integer);" }];
    assert_eq!(
        check_declared_migrations("gapped", gapped),
        Err(SqlitePhysicalError::MigrationGap {
            component: "gapped".to_owned(),
            expected: 1,
            actual: 2,
        })
    );
    assert_eq!(
        plan_component_migrations("gapped", gapped, &[]),
        Err(SqlitePhysicalError::MigrationGap {
            component: "gapped".to_owned(),
            expected: 1,
            actual: 2,
        })
    );
    assert_eq!(
        plan_component_migrations("c", MIGRATIONS, &[2]),
        Err(SqlitePhysicalError::MigrationGap { component: "c".to_owned(), expected: 1, actual: 2 })
    );
    assert!(!SqlitePhysicalError::PermanentBackend("x".to_owned()).is_transient());
    assert!(SqlitePhysicalError::TransientBackend("x".to_owned()).is_transient());
}

#[test]
fn new_run_needs_its_own_user_input_at_ordinal_one() {
    let good = NewAgentRun {
        id: run_id(),
        configuration: JsonValue::object(vec![]),
        created_at: ts(1),
        initial_entry: user(run_id(), 1),
    };
    assert_eq!(validate_initial_run(&good), Ok(()));
    let second = NewAgentRun { initial_entry: user(run_id(), 2), ..good };
    assert_eq!(
        validate_initial_run(&second),
        Err(AgentStoreError::Corrupt("initial entry ordinal must be 1, got 2".to_owned()))
    );
    let foreign = NewAgentRun {
        id: run_id(),
        configuration: JsonValue::object(vec![]),
        created_at: ts(1),
        initial_entry: user(AgentRunId::from_u128(2), 1),
    };
    assert_eq!(
        validate_initial_run(&foreign),
        Err(AgentStoreError::Corrupt(
            "initial entry run 00000000-0000-0000-0000-000000000002 does not match new run \
             00000000-0000-0000-0000-000000000001"
                .to_owned()
        ))
    );
}

#[test]
fn appends_continue_the_stored_numbering_at_the_expected_version() {
    let append = AgentAppend {
        run_id: run_id(),
        expected_version: 3,
        entries: vec![user(run_id(), 4)],
        records: vec![model_started(6)],
    };
    assert_eq!(plan_append(&append, 3, 3, 5), Ok(4));
    assert_eq!(
        plan_append(&append, 4, 3, 5),
        Err(AgentStoreError::Conflict {
            id: "00000000-0000-0000-0000-000000000001".to_owned(),
            expected: 3,
            actual: 4,
        })
    );
    assert_eq!(
        plan_append(&append, 3, 2, 5),
        Err(AgentStoreError::Corrupt(
            "Agent entry ordinal 4 does not continue from 2 (expected 3)".to_owned()
        ))
    );
    assert_eq!(
        plan_append(&append, 3, 3, 4),
        Err(AgentStoreError::Corrupt(
            "Agent record sequence 6 does not continue from 4 (expected 5)".to_owned()
        ))
    );
    let empty = AgentAppend { run_id: run_id(), expected_version: 3, entries: vec![], records: vec![] };
    assert_eq!(
        plan_append(&empty, 3, 3, 5),
        Err(AgentStoreError::Corrupt(
            "Agent append must contain at least one entry or record".to_owned()
        ))
    );
}

#[test]
fn stored_numbers_and_kinds_are_checked_on_read() {
    assert_eq!(to_u64(7, "ordinal"), Ok(7));
    assert_eq!(to_u64(-1, "ordinal"), Err(AgentStoreError::Corrupt("negative ordinal".to_owned())));
    assert_eq!(to_i64(7, "version"), Ok(7));
    assert_eq!(
        to_i64(u64::MAX, "version"),
        Err(AgentStoreError::Backend("version overflow".to_owned()))
    );
    let error = decode_entry(
        run_id(),
        "00000000-0000-0000-0000-000000000065",
        1,
        "1970-01-01T00:00:01Z",
        "assistant_message",
        AgentEntryData::UserInput { text: "hello".to_owned() },
    )
    .unwrap_err();
    assert_eq!(
        error,
        AgentStoreError::Corrupt(
            "Agent entry kind assistant_message does not match payload kind user_input".to_owned()
        )
    );
    let entry = decode_entry(
        run_id(),
        "00000000-0000-0000-0000-000000000065",
        1,
        "1970-01-01T00:00:01Z",
        "user_input",
        AgentEntryData::UserInput { text: "hello".to_owned() },
    )
    .unwrap();
    assert_eq!(entry, user(run_id(), 1));
}

#[test]
fn links_are_found_matched_or_refused() {
    let run = run_id();
    let execution = ExecutionId::from_u128(9);
    assert_eq!(decide_link(run, execution, &[]), Ok(None));
    assert_eq!(decide_link(run, execution, &[(run, execution)]), Ok(Some((run, execution))));
    assert!(matches!(
        decide_link(run, execution, &[(run, ExecutionId::from_u128(8)), (AgentRunId::from_u128(2), execution)]),
        Err(SqliteAgentCoordinatorError::Conflict(_))
    ));
    assert_eq!(check_link(run, execution, (run, execution)), Ok(()));
    assert!(matches!(
        check_link(run, execution, (run, ExecutionId::from_u128(8))),
        Err(SqliteAgentCoordinatorError::Conflict(_))
    ));
    assert_eq!(check_unlinked(run, execution, false, false), Ok(()));
    assert_eq!(
        check_unlinked(run, execution, true, false),
        Err(SqliteAgentCoordinatorError::Conflict(
            "execution 00000000-0000-0000-0000-000000000009 or Agent run \
             00000000-0000-0000-0000-000000000001 already exists without the requested link"
                .to_owned()
        ))
    );
}

fn row(kind: &str, status: &str, version: i64) -> ExecutionRow {
    ExecutionRow {
        kind: kind.to_owned(),
        status: status.to_owned(),
        configuration_digest: "digest".to_owned(),
        cancel_requested: 1,
        cancel_reason: None,
        result_artifact: None,
        error: None,
        created_at: "1970-01-01T00:00:05Z".to_owned(),
        started_at: Some("1970-01-01T00:00:06Z".to_owned()),
        finished_at: None,
        deadline: None,
        version,
    }
}

#[test]
fn stored_execution_rows_read_back_or_name_their_first_fault() {
    let id = ExecutionId::from_u128(3);
    let record = decode_execution(id, row("demo", "running", 4)).unwrap();
    assert_eq!(record.id, id);
    assert_eq!(record.status, ExecutionStatus::Running);
    assert!(record.cancel_requested);
    assert_eq!(record.created_at, ts(5));
    assert_eq!(record.started_at, Some(ts(6)));
    assert_eq!(record.version, 4);
    assert_eq!(
        decode_execution(id, row(" ", "paused", -1)).unwrap_err(),
        StoreError::Corrupt("execution kind must not be empty".to_owned())
    );
    assert_eq!(
        decode_execution(id, row("demo", "paused", -1)).unwrap_err(),
        StoreError::Corrupt("unknown execution status: paused".to_owned())
    );
    assert_eq!(
        decode_execution(id, row("demo", "running", -1)).unwrap_err(),
        StoreError::Corrupt("negative execution version".to_owned())
    );
}

#[test]
fn stored_event_and_artifact_rows_read_back_or_name_their_first_fault() {
    let execution = ExecutionId::from_u128(3);
    let id = "00000000-0000-0000-0000-000000000011";
    let event = decode_event(execution, id, 2, "1970-01-01T00:00:07Z", 1, "internal", ExecutionEventData::Started)
        .unwrap();
    assert_eq!(event.id.as_u128(), 0x11);
    assert_eq!(event.sequence, 2);
    assert_eq!(event.occurred_at, ts(7));
    assert_eq!(event.visibility, EventVisibility::Internal);
    assert_eq!(
        decode_event(execution, id, -2, "not a time", 1, "internal", ExecutionEventData::Started).unwrap_err(),
        StoreError::Corrupt("negative event sequence".to_owned())
    );
    assert_eq!(
        decode_event(execution, id, 2, "1970-01-01T00:00:07Z", 70000, "secret", ExecutionEventData::Started)
            .unwrap_err(),
        StoreError::Corrupt("invalid event payload version".to_owned())
    );
    assert_eq!(
        decode_event(execution, id, 2, "1970-01-01T00:00:07Z", 1, "secret", ExecutionEventData::Started)
            .unwrap_err(),
        StoreError::Corrupt("unknown event visibility: secret".to_owned())
    );
    let artifact = decode_artifact(id, "d".to_owned(), "text/plain".to_owned(), 3, "file:///a".to_owned()).unwrap();
    assert_eq!(artifact.size_bytes, 3);
    assert_eq!(
        decode_artifact(id, "d".to_owned(), "text/plain".to_owned(), -3, "file:///a".to_owned()).unwrap_err(),
        StoreError::Corrupt("negative artifact size".to_owned())
    );
}

#[test]
fn written_entries_and_records_read_back_unchanged() {
    let mut entry = user(run_id(), 3);
    entry.created_at = Timestamp::from_unix(1_700_000_000, 123_456_789);
    let c = entry_columns(&entry).unwrap();
    let read = decode_entry(run_id(), &c.id, c.ordinal, &c.created_at, c.kind, AgentEntryData::UserInput {
        text: "hello".to_owned(),
    })
    .unwrap();
    assert_eq!(read, entry);

    let record = model_started(4);
    let c = record_columns(&record).unwrap();
    let read = decode_record(
        run_id(),
        c.sequence,
        &c.recorded_at,
        c.kind,
        AgentRecordData::ModelAttemptStarted { attempt_id: ModelAttemptId::from_u128(50), request_ordinal: 1 },
    )
    .unwrap();
    assert_eq!(read, record);

    let mut late = user(run_id(), 1);
    late.ordinal = u64::MAX;
    assert_eq!(
        entry_columns(&late).err(),
        Some(AgentStoreError::Backend("Agent entry ordinal overflow".to_owned()))
    );
}

#[test]
fn written_executions_events_and_artifacts_read_back_unchanged() {
    let record = ExecutionRecord {
        id: ExecutionId::from_u128(8),
        kind: ExecutionKind::new("demo").unwrap(),
        status: ExecutionStatus::Cancelled,
        configuration_digest: "digest".to_owned(),
        cancel_requested: true,
        cancel_reason: Some(CancelReason::new("operator", Some("stop".to_owned()))),
        result_artifact: None,
        error: None,
        created_at: Timestamp::from_unix(1_700_000_000, 0),
        started_at: Some(Timestamp::from_unix(1_700_000_001, 500_000_000)),
        finished_at: Some(Timestamp::from_unix(1_700_000_002, 1_000)),
        deadline: None,
        version: 5,
    };
    let row = execution_row(&record).unwrap();
    assert_eq!(decode_execution(record.id, row).unwrap(), record);

    let event = ExecutionEvent {
        id: EventId::from_u128(77),
        execution_id: record.id,
        sequence: 5,
        occurred_at: Timestamp::from_unix(1_700_000_002, 1_000),
        payload_version: 1,
        visibility: EventVisibility::Sensitive,
        data: ExecutionEventData::TimedOut,
    };
    let c = event_columns(&event).unwrap();
    assert_eq!(c.kind, "execution_timed_out");
    let read = decode_event(
        record.id,
        &c.id,
        c.sequence,
        &c.occurred_at,
        c.payload_version,
        c.visibility,
        ExecutionEventData::TimedOut,
    )
    .unwrap();
    assert_eq!(read, event);

    let artifact = ArtifactRef {
        id: ArtifactId::from_u128(5),
        digest: "abc".to_owned(),
        media_type: "text/plain".to_owned(),
        size_bytes: 3,
        storage_uri: "file:///tmp/abc".to_owned(),
    };
    let c = artifact_columns(&artifact).unwrap();
    let read = decode_artifact(&c.id, "abc".to_owned(), "text/plain".to_owned(), c.size_bytes, "file:///tmp/abc".to_owned())
        .unwrap();
    assert_eq!(read, artifact);
}

#[test]
fn fresh_identifiers_are_version_7_uuids() {
    let bits = [
        ExecutionId::new().as_u128(),
        EventId::new().as_u128(),
        ArtifactId::new().as_u128(),
        AgentRunId::new().as_u128(),
        AgentEntryId::new().as_u128(),
        ModelAttemptId::new().as_u128(),
    ];
    for b in bits {
        assert_eq!((b >> 76) & 0xf, 7);
    }
    assert_ne!(ExecutionId::new().as_u128(), ExecutionId::new().as_u128());
}

#[test]
fn retry_with_reordered_configuration_matches_the_stored_run() {
    let member = |k: &str, v: JsonValue| (k.to_owned(), v);
    let stored_config = JsonValue::object(vec![
        member("model", JsonValue::string("m")),
        member("tools", JsonValue::array(vec![JsonValue::string("test.echo")])),
    ]);
    let reordered = JsonValue::object(vec![
        member("tools", JsonValue::array(vec![JsonValue::string("test.echo")])),
        member("model", JsonValue::string("m")),
    ]);
    let changed = JsonValue::object(vec![
        member("model", JsonValue::string("other")),
        member("tools", JsonValue::array(vec![JsonValue::string("test.echo")])),
    ]);
    let execution = NewExecution {
        id: ExecutionId::from_u128(8),
        kind: ExecutionKind::new("agent").unwrap(),
        configuration_digest: "digest".to_owned(),
        created_at: ts(1),
        deadline: None,
        event_id: EventId::from_u128(9),
    };
    let existing_execution = ExecutionRecord {
        id: execution.id,
        kind: ExecutionKind::new("agent").unwrap(),
        status: ExecutionStatus::Pending,
        configuration_digest: "digest".to_owned(),
        cancel_requested: false,
        cancel_reason: None,
        result_artifact: None,
        error: None,
        created_at: ts(1),
        started_at: None,
        finished_at: None,
        deadline: None,
        version: 1,
    };
    let existing_agent = AgentRunRecord {
        id: run_id(),
        configuration: stored_config,
        created_at: ts(1),
        version: 1,
    };
    let first = user(run_id(), 1);
    let retry = NewAgentRun {
        id: run_id(),
        configuration: reordered,
        created_at: ts(1),
        initial_entry: user(run_id(), 1),
    };
    assert!(check_retry(&existing_execution, &existing_agent, Some(&first), &execution, &retry).is_ok());

    let conflicting = NewAgentRun {
        id: run_id(),
        configuration: changed,
        created_at: ts(1),
        initial_entry: user(run_id(), 1),
    };
    assert!(matches!(
        check_retry(&existing_execution, &existing_agent, Some(&first), &execution, &conflicting),
        Err(SqliteAgentCoordinatorError::Conflict(_))
    ));
}
