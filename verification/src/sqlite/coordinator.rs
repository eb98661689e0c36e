//! The coordination of one runtime execution with one Agent run, created
//! together in one transaction and linked one to one. The decisions are
//! made here; the transaction runs outside the library.

use crate::agent::history::{lemma_same_entry_reflexive, same_entry, AgentEntry};
use crate::agent::store::{AgentRunRecord, AgentStoreError, NewAgentRun};
use crate::ids::{spec_parse_uuid, parse_uuid_text, spec_uuid_text, uuid_text, AgentRunId, EventId, ExecutionId, Timestamp};
use crate::json::{same_document, spec_json_bytes, JsonValue};
use crate::sqlite::stores::{SqliteAgentStore, SqliteRuntimeStore};
use crate::store::{spec_created_record, NewExecution, StoreError};
use crate::text::is_ascii_alphanumeric;
use crate::tools::digest::{arguments_digest, spec_sha256_hex};
use crate::types::{ExecutionKind, ExecutionRecord};
use vstd::prelude::*;
use vstd::string::StringExecFns;

verus! {

/// A coordinated Agent run to create.
#[derive(Debug)]
pub struct NewCoordinatedAgentRun {
    pub execution_id: ExecutionId,
    pub run_id: AgentRunId,
    pub configuration: JsonValue,
    pub created_at: Timestamp,
    pub deadline: Option<Timestamp>,
    pub initial_entry: AgentEntry,
}

/// A runtime execution and the Agent run linked to it.
#[derive(Debug, PartialEq)]
pub struct CoordinatedAgentRun {
    pub execution: ExecutionRecord,
    pub agent: AgentRunRecord,
}

/// Why a coordinated operation failed.
#[derive(Debug, PartialEq)]
pub enum SqliteAgentCoordinatorError {
    PathMismatch,
    Invalid(String),
    Conflict(String),
    Runtime(StoreError),
    Agent(AgentStoreError),
    Corrupt(String),
    TransientBackend(String),
    PermanentBackend(String),
    Migration(String),
}

/// Whether two texts name the same filesystem path, component by component.
pub uninterp spec fn spec_same_path(a: Seq<char>, b: Seq<char>) -> bool;

/// Calls `<std::path::Path as PartialEq>::eq`, which compares paths by
/// their components.
#[verifier::external_body]
fn same_path(a: &str, b: &str) -> (r: bool)
    ensures
        r == spec_same_path(a@, b@),
{
    std::path::Path::new(a) == std::path::Path::new(b)
}

/// The runtime and Agent stores kept in one SQLite database.
#[derive(Debug)]
pub struct SqliteAgentCoordinator {
    path: String,
    runtime_store: SqliteRuntimeStore,
    agent_store: SqliteAgentStore,
}

impl SqliteAgentCoordinator {
    /// Both stores must use the same database path.
    pub fn new(runtime_store: SqliteRuntimeStore, agent_store: SqliteAgentStore) -> (r: Result<
        SqliteAgentCoordinator,
        SqliteAgentCoordinatorError,
    >)
        ensures
            match r {
                Ok(c) => spec_same_path(runtime_store.path_text(), agent_store.path_text())
                    && c.path_text() == runtime_store.path_text()
                    && c.runtime_path() == runtime_store.path_text() && c.agent_path()
                    == agent_store.path_text(),
                Err(e) => !spec_same_path(runtime_store.path_text(), agent_store.path_text())
                    && e == SqliteAgentCoordinatorError::PathMismatch,
            },
    {
        if !same_path(runtime_store.path(), agent_store.path()) {
            return Err(SqliteAgentCoordinatorError::PathMismatch);
        }
        let path = runtime_store.path().to_string();
        SqliteAgentCoordinator { path, runtime_store, agent_store }.into_ok()
    }

    fn into_ok(self) -> (r: Result<SqliteAgentCoordinator, SqliteAgentCoordinatorError>)
        ensures
            r == Ok::<SqliteAgentCoordinator, SqliteAgentCoordinatorError>(self),
    {
        Ok(self)
    }

    pub closed spec fn path_text(&self) -> Seq<char> {
        self.path@
    }

    pub closed spec fn runtime_path(&self) -> Seq<char> {
        self.runtime_store.path_text()
    }

    pub closed spec fn agent_path(&self) -> Seq<char> {
        self.agent_store.path_text()
    }

    pub fn path(&self) -> (r: &str)
        ensures
            r@ == self.path_text(),
    {
        self.path.as_str()
    }

    pub fn runtime_store(&self) -> (r: &SqliteRuntimeStore)
        ensures
            r.path_text() == self.runtime_path(),
    {
        &self.runtime_store
    }

    pub fn agent_store(&self) -> (r: &SqliteAgentStore)
        ensures
            r.path_text() == self.agent_path(),
    {
        &self.agent_store
    }
}

/// The text `run/execution` of a pair of ids.
pub open spec fn pair_text(run_id: AgentRunId, execution_id: ExecutionId) -> Seq<char> {
    spec_uuid_text(run_id.0) + "/"@ + spec_uuid_text(execution_id.0)
}

fn pair_text_exec(run_id: AgentRunId, execution_id: ExecutionId) -> (r: String)
    ensures
        r@ == pair_text(run_id, execution_id),
{
    let mut text = uuid_text(run_id.0);
    text.append("/");
    let e = uuid_text(execution_id.0);
    text.append(e.as_str());
    text
}

/// The execution and Agent run a coordinated run creates: an `agent`
/// execution whose configuration digest is the SHA-256 of the
/// configuration's canonical bytes, and an Agent run with the same
/// configuration, instant and initial entry.
pub open spec fn is_prepared(
    new: NewCoordinatedAgentRun,
    execution: NewExecution,
    agent: NewAgentRun,
) -> bool {
    &&& execution.id == new.execution_id
    &&& execution.kind@ == "agent"@
    &&& execution.configuration_digest@ == spec_sha256_hex(spec_json_bytes(new.configuration))
    &&& execution.created_at == new.created_at
    &&& execution.deadline == new.deadline
    &&& agent.id == new.run_id
    &&& agent.configuration == new.configuration
    &&& agent.created_at == new.created_at
    &&& agent.initial_entry == new.initial_entry
}

/// Prepares a coordinated run: the initial entry must belong to the Agent
/// run.
pub fn prepare_coordinated_run(new: NewCoordinatedAgentRun) -> (r: Result<
    (NewExecution, NewAgentRun),
    SqliteAgentCoordinatorError,
>)
    ensures
        new.initial_entry.run_id != new.run_id ==> (r matches Err(SqliteAgentCoordinatorError::Invalid(m))
            && m@ == "initial entry run "@ + spec_uuid_text(new.initial_entry.run_id.0)
            + " does not match Agent run "@ + spec_uuid_text(new.run_id.0)),
        new.initial_entry.run_id == new.run_id ==> (r matches Ok((execution, agent)) && is_prepared(
            new,
            execution,
            agent,
        )),
{
    if new.initial_entry.run_id != new.run_id {
        let mut message = "initial entry run ".to_string();
        let a = uuid_text(new.initial_entry.run_id.0);
        message.append(a.as_str());
        message.append(" does not match Agent run ");
        let b = uuid_text(new.run_id.0);
        message.append(b.as_str());
        return Err(SqliteAgentCoordinatorError::Invalid(message));
    }
    let digest = arguments_digest(&new.configuration);
    proof {
        reveal_strlit("agent");
        assert(is_ascii_alphanumeric("agent"@[0]));
    }
    let kind = match ExecutionKind::new("agent") {
        Ok(k) => k,
        Err(_) => unreached(),
    };
    let execution = NewExecution {
        id: new.execution_id,
        kind,
        configuration_digest: digest,
        created_at: new.created_at,
        deadline: new.deadline,
        event_id: EventId::new(),
    };
    let agent = NewAgentRun {
        id: new.run_id,
        configuration: new.configuration,
        created_at: new.created_at,
        initial_entry: new.initial_entry,
    };
    Ok((execution, agent))
}

/// What the links found for either id give: none, the one link, or a
/// conflict when the ids resolve to different links.
pub open spec fn link_outcome(
    run_id: AgentRunId,
    execution_id: ExecutionId,
    links: Seq<(AgentRunId, ExecutionId)>,
) -> Result<Option<(AgentRunId, ExecutionId)>, Seq<char>> {
    if links.len() == 0 {
        Ok(None)
    } else if links.len() == 1 {
        Ok(Some(links[0]))
    } else {
        Err(
            "requested identifiers "@ + pair_text(run_id, execution_id)
                + " resolve to different existing links"@,
        )
    }
}

/// Decides among the stored links that name the run or the execution.
pub fn decide_link(
    run_id: AgentRunId,
    execution_id: ExecutionId,
    links: &[(AgentRunId, ExecutionId)],
) -> (r: Result<Option<(AgentRunId, ExecutionId)>, SqliteAgentCoordinatorError>)
    ensures
        match link_outcome(run_id, execution_id, links@) {
            Ok(found) => r == Ok::<
                Option<(AgentRunId, ExecutionId)>,
                SqliteAgentCoordinatorError,
            >(found),
            Err(m) => r matches Err(SqliteAgentCoordinatorError::Conflict(t)) && t@ == m,
        },
{
    if links.len() == 0 {
        return Ok(None);
    }
    if links.len() == 1 {
        return Ok(Some(links[0]));
    }
    let mut message = "requested identifiers ".to_string();
    let pair = pair_text_exec(run_id, execution_id);
    message.append(pair.as_str());
    message.append(" resolve to different existing links");
    Err(SqliteAgentCoordinatorError::Conflict(message))
}

/// An existing link must be exactly the requested pair.
pub fn check_link(
    run_id: AgentRunId,
    execution_id: ExecutionId,
    link: (AgentRunId, ExecutionId),
) -> (r: Result<(), SqliteAgentCoordinatorError>)
    ensures
        (link.0 == run_id && link.1 == execution_id) ==> r is Ok,
        !(link.0 == run_id && link.1 == execution_id) ==> (r matches Err(
            SqliteAgentCoordinatorError::Conflict(m),
        ) && m@ == "requested "@ + pair_text(run_id, execution_id) + ", existing link is "@
            + pair_text(link.0, link.1)),
{
    if link.0 == run_id && link.1 == execution_id {
        return Ok(());
    }
    let mut message = "requested ".to_string();
    let requested = pair_text_exec(run_id, execution_id);
    message.append(requested.as_str());
    message.append(", existing link is ");
    let existing = pair_text_exec(link.0, link.1);
    message.append(existing.as_str());
    Err(SqliteAgentCoordinatorError::Conflict(message))
}

/// A retry reproduces exactly the inputs of the coordinated run it finds.
pub open spec fn retry_matches(
    existing_execution: ExecutionRecord,
    existing_agent: AgentRunRecord,
    first_entry: AgentEntry,
    execution: NewExecution,
    agent: NewAgentRun,
) -> bool {
    &&& existing_execution.kind@ == execution.kind@
    &&& existing_execution.configuration_digest@ == execution.configuration_digest@
    &&& existing_execution.created_at == execution.created_at
    &&& existing_execution.deadline == execution.deadline
    &&& same_document(existing_agent.configuration, agent.configuration)
    &&& existing_agent.created_at == agent.created_at
    &&& same_entry(first_entry, agent.initial_entry)
}

fn same_deadline(a: Option<Timestamp>, b: Option<Timestamp>) -> (r: bool)
    ensures
        r == (a == b),
{
    match (a, b) {
        (None, None) => true,
        (Some(x), Some(y)) => x == y,
        _ => false,
    }
}

/// Checks a retry against the coordinated run already stored: the linked
/// run must have its initial entry, and every input must be the same.
pub fn check_retry(
    existing_execution: &ExecutionRecord,
    existing_agent: &AgentRunRecord,
    first_entry: Option<&AgentEntry>,
    execution: &NewExecution,
    agent: &NewAgentRun,
) -> (r: Result<(), SqliteAgentCoordinatorError>)
    ensures
        first_entry is None ==> (r matches Err(SqliteAgentCoordinatorError::Conflict(m)) && m@
            == "linked Agent run "@ + spec_uuid_text(agent.id.0) + " has no initial entry"@),
        first_entry matches Some(entry) ==> (retry_matches(
            *existing_execution,
            *existing_agent,
            *entry,
            *execution,
            *agent,
        ) ==> r is Ok) && (!retry_matches(
            *existing_execution,
            *existing_agent,
            *entry,
            *execution,
            *agent,
        ) ==> (r matches Err(SqliteAgentCoordinatorError::Conflict(m)) && m@
            == "retry inputs do not match existing coordinated Agent run "@ + pair_text(
            agent.id,
            execution.id,
        ))),
{
    let entry = match first_entry {
        Some(e) => e,
        None => {
            let mut message = "linked Agent run ".to_string();
            let run = uuid_text(agent.id.0);
            message.append(run.as_str());
            message.append(" has no initial entry");
            return Err(SqliteAgentCoordinatorError::Conflict(message));
        },
    };
    let same = crate::text::str_equal(existing_execution.kind.as_str(), execution.kind.as_str())
        && existing_execution.configuration_digest == execution.configuration_digest
        && existing_execution.created_at == execution.created_at && same_deadline(
        existing_execution.deadline,
        execution.deadline,
    ) && existing_agent.configuration.same_document_as(&agent.configuration)
        && existing_agent.created_at == agent.created_at && entry.same_as(&agent.initial_entry);
    if same {
        return Ok(());
    }
    let mut message = "retry inputs do not match existing coordinated Agent run ".to_string();
    let pair = pair_text_exec(agent.id, execution.id);
    message.append(pair.as_str());
    Err(SqliteAgentCoordinatorError::Conflict(message))
}

/// Without a link, neither the execution nor the Agent run may exist yet.
pub fn check_unlinked(
    run_id: AgentRunId,
    execution_id: ExecutionId,
    execution_exists: bool,
    agent_exists: bool,
) -> (r: Result<(), SqliteAgentCoordinatorError>)
    ensures
        !execution_exists && !agent_exists ==> r is Ok,
        (execution_exists || agent_exists) ==> (r matches Err(
            SqliteAgentCoordinatorError::Conflict(m),
        ) && m@ == "execution "@ + spec_uuid_text(execution_id.0) + " or Agent run "@
            + spec_uuid_text(run_id.0) + " already exists without the requested link"@),
{
    if !execution_exists && !agent_exists {
        return Ok(());
    }
    let mut message = "execution ".to_string();
    let e = uuid_text(execution_id.0);
    message.append(e.as_str());
    message.append(" or Agent run ");
    let a = uuid_text(run_id.0);
    message.append(a.as_str());
    message.append(" already exists without the requested link");
    Err(SqliteAgentCoordinatorError::Conflict(message))
}

/// A stored link id read back; a text that is not a UUID is corrupt data.
pub open spec fn link_id_outcome(text: Seq<char>, label: Seq<char>) -> Result<u128, Seq<char>> {
    match spec_parse_uuid(text) {
        Ok(bits) => Ok(bits),
        Err(m) => Err("invalid "@ + label + ": "@ + m),
    }
}

pub fn parse_link_id(text: &str, label: &str) -> (r: Result<u128, SqliteAgentCoordinatorError>)
    ensures
        match link_id_outcome(text@, label@) {
            Ok(bits) => r == Ok::<u128, SqliteAgentCoordinatorError>(bits),
            Err(m) => r matches Err(SqliteAgentCoordinatorError::Corrupt(t)) && t@ == m,
        },
{
    match parse_uuid_text(text) {
        Ok(bits) => Ok(bits),
        Err(m) => {
            let mut message = "invalid ".to_string();
            message.append(label);
            message.append(": ");
            message.append(m.as_str());
            Err(SqliteAgentCoordinatorError::Corrupt(message))
        },
    }
}

/// A repeated create request finds the run its first call created: when
/// the store holds the execution and the Agent run as the first call wrote
/// them, the one stored link is found, it is the requested pair, and the
/// retry prepared from the same request matches what is stored, so nothing
/// new is written. The configuration must name each object key once;
/// otherwise it does not match even itself.
pub proof fn lemma_same_request_retry_matches(
    new: NewCoordinatedAgentRun,
    first: (NewExecution, NewAgentRun),
    retry: (NewExecution, NewAgentRun),
    stored_agent: AgentRunRecord,
)
    requires
        is_prepared(new, first.0, first.1),
        is_prepared(new, retry.0, retry.1),
        stored_agent.configuration == first.1.configuration,
        stored_agent.created_at == first.1.created_at,
        same_document(new.configuration, new.configuration),
    ensures
        link_outcome(new.run_id, new.execution_id, seq![(new.run_id, new.execution_id)]) == Ok::<
            Option<(AgentRunId, ExecutionId)>,
            Seq<char>,
        >(Some((new.run_id, new.execution_id))),
        retry_matches(
            spec_created_record(first.0),
            stored_agent,
            first.1.initial_entry,
            retry.0,
            retry.1,
        ),
{
    lemma_same_entry_reflexive(new.initial_entry);
}

} // verus!
