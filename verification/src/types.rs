//! The runtime's shared vocabulary: execution records, statuses and events.

use crate::ids::{ArtifactId, EventId, ExecutionId, Timestamp};
use crate::json::JsonValue;
use crate::text::{is_ascii_alphanumeric, is_blank, spec_is_blank, str_equal};
use vstd::prelude::*;
use vstd::string::StringExecFns;

verus! {

/// What an execution is for; never blank.
#[derive(Debug, PartialEq, Eq, Hash)]
pub struct ExecutionKind(String);

impl View for ExecutionKind {
    type V = Seq<char>;

    closed spec fn view(&self) -> Seq<char> {
        self.0@
    }
}

impl Clone for ExecutionKind {
    fn clone(&self) -> (r: Self)
        ensures
            r == *self,
    {
        proof {
            use_type_invariant(self);
        }
        ExecutionKind(self.0.clone())
    }
}

impl ExecutionKind {
    /// The text is never blank.
    #[verifier::type_invariant]
    pub open spec fn never_blank(self) -> bool {
        !spec_is_blank(self@)
    }

    /// Accepts any text that is not blank.
    pub fn new(value: &str) -> (r: Result<ExecutionKind, &'static str>)
        ensures
            r is Ok <==> !spec_is_blank(value@),
            r matches Ok(kind) ==> kind@ == value@,
            r matches Err(m) ==> m@ == "execution kind must not be empty"@,
            (exists|i: int| 0 <= i < value@.len() && is_ascii_alphanumeric(#[trigger] value@[i]))
                ==> r is Ok,
    {
        if is_blank(value) {
            return Err("execution kind must not be empty");
        }
        Ok(ExecutionKind(value.to_string()))
    }

    /// The kind of synthetic executions.
    pub fn synthetic() -> (r: ExecutionKind)
        ensures
            r@ == "synthetic"@,
    {
        proof {
            reveal_strlit("synthetic");
            assert(is_ascii_alphanumeric("synthetic"@[0]));
        }
        match ExecutionKind::new("synthetic") {
            Ok(kind) => kind,
            Err(_) => unreached(),
        }
    }

    pub fn as_str(&self) -> (r: &str)
        ensures
            r@ == self@,
    {
        self.0.as_str()
    }
}

/// Where an execution stands in its lifecycle.
#[derive(Clone, Copy, Debug, PartialEq, Eq, Hash, Structural)]
pub enum ExecutionStatus {
    Pending,
    Running,
    Waiting,
    Succeeded,
    Failed,
    Cancelled,
    TimedOut,
    BudgetExhausted,
    PolicyDenied,
    RequiresIntervention,
}

impl ExecutionStatus {
    /// A terminal status admits no further event.
    pub open spec fn spec_is_terminal(self) -> bool {
        !(self is Pending || self is Running || self is Waiting)
    }

    /// The status's durable name.
    pub open spec fn spec_name(self) -> Seq<char> {
        match self {
            ExecutionStatus::Pending => "pending"@,
            ExecutionStatus::Running => "running"@,
            ExecutionStatus::Waiting => "waiting"@,
            ExecutionStatus::Succeeded => "succeeded"@,
            ExecutionStatus::Failed => "failed"@,
            ExecutionStatus::Cancelled => "cancelled"@,
            ExecutionStatus::TimedOut => "timed_out"@,
            ExecutionStatus::BudgetExhausted => "budget_exhausted"@,
            ExecutionStatus::PolicyDenied => "policy_denied"@,
            ExecutionStatus::RequiresIntervention => "requires_intervention"@,
        }
    }

    pub fn is_terminal(self) -> (r: bool)
        ensures
            r == self.spec_is_terminal(),
    {
        match self {
            ExecutionStatus::Pending | ExecutionStatus::Running | ExecutionStatus::Waiting => false,
            _ => true,
        }
    }

    pub fn as_str(self) -> (r: &'static str)
        ensures
            r@ == self.spec_name(),
    {
        match self {
            ExecutionStatus::Pending => "pending",
            ExecutionStatus::Running => "running",
            ExecutionStatus::Waiting => "waiting",
            ExecutionStatus::Succeeded => "succeeded",
            ExecutionStatus::Failed => "failed",
            ExecutionStatus::Cancelled => "cancelled",
            ExecutionStatus::TimedOut => "timed_out",
            ExecutionStatus::BudgetExhausted => "budget_exhausted",
            ExecutionStatus::PolicyDenied => "policy_denied",
            ExecutionStatus::RequiresIntervention => "requires_intervention",
        }
    }

    /// Reads a durable status name.
    pub fn parse(text: &str) -> (r: Result<ExecutionStatus, ExecutionStatusParseError>)
        ensures
            r matches Ok(status) ==> status.spec_name() == text@,
            r matches Err(e) ==> e.0@ == text@ && (forall|s: ExecutionStatus|
                s.spec_name() != text@),
    {
        if str_equal(text, "pending") {
            Ok(ExecutionStatus::Pending)
        } else if str_equal(text, "running") {
            Ok(ExecutionStatus::Running)
        } else if str_equal(text, "waiting") {
            Ok(ExecutionStatus::Waiting)
        } else if str_equal(text, "succeeded") {
            Ok(ExecutionStatus::Succeeded)
        } else if str_equal(text, "failed") {
            Ok(ExecutionStatus::Failed)
        } else if str_equal(text, "cancelled") {
            Ok(ExecutionStatus::Cancelled)
        } else if str_equal(text, "timed_out") {
            Ok(ExecutionStatus::TimedOut)
        } else if str_equal(text, "budget_exhausted") {
            Ok(ExecutionStatus::BudgetExhausted)
        } else if str_equal(text, "policy_denied") {
            Ok(ExecutionStatus::PolicyDenied)
        } else if str_equal(text, "requires_intervention") {
            Ok(ExecutionStatus::RequiresIntervention)
        } else {
            Err(ExecutionStatusParseError(text.to_string()))
        }
    }
}

/// Reading a status back from its name gives the same status.
pub proof fn lemma_status_name_round_trip(status: ExecutionStatus, other: ExecutionStatus)
    ensures
        status.spec_name() == other.spec_name() <==> status == other,
{
    reveal_strlit("pending");
    reveal_strlit("running");
    reveal_strlit("waiting");
    reveal_strlit("succeeded");
    reveal_strlit("failed");
    reveal_strlit("cancelled");
    reveal_strlit("timed_out");
    reveal_strlit("budget_exhausted");
    reveal_strlit("policy_denied");
    reveal_strlit("requires_intervention");
    if status != other {
        assert(status.spec_name().len() != other.spec_name().len() || status.spec_name()[0]
            != other.spec_name()[0]);
    }
}

/// A text that names no status.
#[derive(Debug, PartialEq, Eq)]
pub struct ExecutionStatusParseError(pub String);

impl ExecutionStatusParseError {
    /// The error's text.
    pub fn to_text(&self) -> (r: String)
        ensures
            r@ == "unknown execution status: "@ + self.0@,
    {
        let mut text = "unknown execution status: ".to_string();
        text.append(self.0.as_str());
        text
    }
}

impl core::str::FromStr for ExecutionStatus {
    type Err = ExecutionStatusParseError;

    fn from_str(s: &str) -> (r: Result<Self, Self::Err>)
        ensures
            r matches Ok(status) ==> status.spec_name() == s@,
            r matches Err(e) ==> e.0@ == s@ && (forall|t: ExecutionStatus| t.spec_name() != s@),
    {
        ExecutionStatus::parse(s)
    }
}

/// Why cancellation was requested.
#[derive(Debug, PartialEq, Eq)]
pub struct CancelReason {
    pub code: String,
    pub message: Option<String>,
}

impl CancelReason {
    pub fn new(code: &str, message: Option<String>) -> (r: CancelReason)
        ensures
            r.code@ == code@,
            r.message == message,
    {
        CancelReason { code: code.to_string(), message }
    }
}

impl Clone for CancelReason {
    fn clone(&self) -> (r: Self)
        ensures
            r == *self,
    {
        CancelReason {
            code: self.code.clone(),
            message: match &self.message {
                Some(m) => Some(m.clone()),
                None => None,
            },
        }
    }
}

/// A stored, content-addressed artifact.
#[derive(Debug, PartialEq, Eq)]
pub struct ArtifactRef {
    pub id: ArtifactId,
    pub digest: String,
    pub media_type: String,
    pub size_bytes: u64,
    pub storage_uri: String,
}

impl Clone for ArtifactRef {
    fn clone(&self) -> (r: Self)
        ensures
            r == *self,
    {
        ArtifactRef {
            id: self.id,
            digest: self.digest.clone(),
            media_type: self.media_type.clone(),
            size_bytes: self.size_bytes,
            storage_uri: self.storage_uri.clone(),
        }
    }
}

/// Clones an optional cancel reason into the same value.
pub fn clone_reason(reason: &Option<CancelReason>) -> (r: Option<CancelReason>)
    ensures
        r == *reason,
{
    match reason {
        Some(x) => Some(x.clone()),
        None => None,
    }
}

/// Clones an optional artifact into the same value.
pub fn clone_artifact(artifact: &Option<ArtifactRef>) -> (r: Option<ArtifactRef>)
    ensures
        r == *artifact,
{
    match artifact {
        Some(x) => Some(x.clone()),
        None => None,
    }
}

/// Clones an optional document into the same value.
pub fn clone_json(value: &Option<JsonValue>) -> (r: Option<JsonValue>)
    ensures
        r == *value,
{
    match value {
        Some(x) => Some(x.clone()),
        None => None,
    }
}

/// The current state of one execution.
#[derive(Debug, PartialEq)]
pub struct ExecutionRecord {
    pub id: ExecutionId,
    pub kind: ExecutionKind,
    pub status: ExecutionStatus,
    pub configuration_digest: String,
    pub cancel_requested: bool,
    pub cancel_reason: Option<CancelReason>,
    pub result_artifact: Option<ArtifactRef>,
    pub error: Option<JsonValue>,
    pub created_at: Timestamp,
    pub started_at: Option<Timestamp>,
    pub finished_at: Option<Timestamp>,
    pub deadline: Option<Timestamp>,
    pub version: u64,
}

impl Clone for ExecutionRecord {
    fn clone(&self) -> (r: Self)
        ensures
            r == *self,
    {
        ExecutionRecord {
            id: self.id,
            kind: self.kind.clone(),
            status: self.status,
            configuration_digest: self.configuration_digest.clone(),
            cancel_requested: self.cancel_requested,
            cancel_reason: clone_reason(&self.cancel_reason),
            result_artifact: clone_artifact(&self.result_artifact),
            error: clone_json(&self.error),
            created_at: self.created_at,
            started_at: self.started_at,
            finished_at: self.finished_at,
            deadline: self.deadline,
            version: self.version,
        }
    }
}

/// Who may see an event.
#[derive(Clone, Copy, Debug, PartialEq, Eq, Structural)]
pub enum EventVisibility {
    Public,
    Internal,
    Sensitive,
}

impl EventVisibility {
    pub open spec fn spec_name(self) -> Seq<char> {
        match self {
            EventVisibility::Public => "public"@,
            EventVisibility::Internal => "internal"@,
            EventVisibility::Sensitive => "sensitive"@,
        }
    }

    pub fn as_str(self) -> (r: &'static str)
        ensures
            r@ == self.spec_name(),
    {
        match self {
            EventVisibility::Public => "public",
            EventVisibility::Internal => "internal",
            EventVisibility::Sensitive => "sensitive",
        }
    }

    /// Reads a durable visibility name.
    pub fn parse(text: &str) -> (r: Option<EventVisibility>)
        ensures
            r matches Some(v) ==> v.spec_name() == text@,
            r is None ==> forall|v: EventVisibility| v.spec_name() != text@,
    {
        if str_equal(text, "public") {
            Some(EventVisibility::Public)
        } else if str_equal(text, "internal") {
            Some(EventVisibility::Internal)
        } else if str_equal(text, "sensitive") {
            Some(EventVisibility::Sensitive)
        } else {
            None
        }
    }
}

/// What happened to an execution.
#[allow(inconsistent_fields)]
#[derive(Debug, PartialEq)]
pub enum ExecutionEventData {
    Created { kind: ExecutionKind, configuration_digest: String },
    Started,
    CancelRequested { reason: CancelReason },
    Succeeded { result_artifact: Option<ArtifactRef> },
    Failed { error: JsonValue },
    Cancelled { reason: Option<CancelReason> },
    TimedOut,
    RequiresIntervention { reason: String },
}

impl ExecutionEventData {
    /// The event's durable name.
    pub open spec fn spec_kind(&self) -> &'static str {
        match self {
            ExecutionEventData::Created { .. } => "execution_created",
            ExecutionEventData::Started => "execution_started",
            ExecutionEventData::CancelRequested { .. } => "cancel_requested",
            ExecutionEventData::Succeeded { .. } => "execution_succeeded",
            ExecutionEventData::Failed { .. } => "execution_failed",
            ExecutionEventData::Cancelled { .. } => "execution_cancelled",
            ExecutionEventData::TimedOut => "execution_timed_out",
            ExecutionEventData::RequiresIntervention { .. } => "execution_requires_intervention",
        }
    }

    pub fn kind(&self) -> (r: &'static str)
        ensures
            r == self.spec_kind(),
    {
        match self {
            ExecutionEventData::Created { .. } => "execution_created",
            ExecutionEventData::Started => "execution_started",
            ExecutionEventData::CancelRequested { .. } => "cancel_requested",
            ExecutionEventData::Succeeded { .. } => "execution_succeeded",
            ExecutionEventData::Failed { .. } => "execution_failed",
            ExecutionEventData::Cancelled { .. } => "execution_cancelled",
            ExecutionEventData::TimedOut => "execution_timed_out",
            ExecutionEventData::RequiresIntervention { .. } => "execution_requires_intervention",
        }
    }
}

impl Clone for ExecutionEventData {
    fn clone(&self) -> (r: Self)
        ensures
            r == *self,
    {
        match self {
            ExecutionEventData::Created { kind, configuration_digest } => ExecutionEventData::Created {
                kind: kind.clone(),
                configuration_digest: configuration_digest.clone(),
            },
            ExecutionEventData::Started => ExecutionEventData::Started,
            ExecutionEventData::CancelRequested { reason } => ExecutionEventData::CancelRequested {
                reason: reason.clone(),
            },
            ExecutionEventData::Succeeded { result_artifact } => ExecutionEventData::Succeeded {
                result_artifact: clone_artifact(result_artifact),
            },
            ExecutionEventData::Failed { error } => ExecutionEventData::Failed { error: error.clone() },
            ExecutionEventData::Cancelled { reason } => ExecutionEventData::Cancelled {
                reason: clone_reason(reason),
            },
            ExecutionEventData::TimedOut => ExecutionEventData::TimedOut,
            ExecutionEventData::RequiresIntervention { reason } => {
                ExecutionEventData::RequiresIntervention { reason: reason.clone() }
            },
        }
    }
}

/// One durable event in an execution's history.
#[derive(Debug, PartialEq)]
pub struct ExecutionEvent {
    pub id: EventId,
    pub execution_id: ExecutionId,
    pub sequence: u64,
    pub occurred_at: Timestamp,
    pub payload_version: u16,
    pub visibility: EventVisibility,
    pub data: ExecutionEventData,
}

impl Clone for ExecutionEvent {
    fn clone(&self) -> (r: Self)
        ensures
            r == *self,
    {
        ExecutionEvent {
            id: self.id,
            execution_id: self.execution_id,
            sequence: self.sequence,
            occurred_at: self.occurred_at,
            payload_version: self.payload_version,
            visibility: self.visibility,
            data: self.data.clone(),
        }
    }
}

} // verus!
