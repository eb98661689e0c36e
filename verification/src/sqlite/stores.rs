//! The SQLite stores' handles and the reading back of stored runtime rows.

use crate::ids::{
    four_digit_year, instant_text, parse_rfc3339, parse_uuid_text, spec_instant_text,
    spec_parse_rfc3339, spec_parse_uuid, spec_uuid_text, uuid_text, ArtifactId, EventId,
    ExecutionId, Timestamp,
};
use crate::json::JsonValue;
use crate::store::{StoreError, StoreErrorView};
use crate::types::{
    ArtifactRef, CancelReason, EventVisibility, ExecutionEvent, ExecutionEventData, ExecutionKind,
    ExecutionRecord, ExecutionStatus,
};
use vstd::prelude::*;
use vstd::string::StringExecFns;

verus! {

/// The runtime store kept in one SQLite database file.
#[derive(Debug)]
pub struct SqliteRuntimeStore {
    path: String,
}

impl SqliteRuntimeStore {
    pub fn new(path: &str) -> (r: SqliteRuntimeStore)
        ensures
            r.path_text() == path@,
    {
        SqliteRuntimeStore { path: path.to_string() }
    }

    pub closed spec fn path_text(&self) -> Seq<char> {
        self.path@
    }

    pub fn path(&self) -> (r: &str)
        ensures
            r@ == self.path_text(),
    {
        self.path.as_str()
    }
}

impl Clone for SqliteRuntimeStore {
    fn clone(&self) -> (r: Self)
        ensures
            r.path_text() == self.path_text(),
    {
        SqliteRuntimeStore { path: self.path.clone() }
    }
}

/// The Agent store kept in one SQLite database file.
#[derive(Debug)]
pub struct SqliteAgentStore {
    path: String,
}

impl SqliteAgentStore {
    pub fn new(path: &str) -> (r: SqliteAgentStore)
        ensures
            r.path_text() == path@,
    {
        SqliteAgentStore { path: path.to_string() }
    }

    pub closed spec fn path_text(&self) -> Seq<char> {
        self.path@
    }

    pub fn path(&self) -> (r: &str)
        ensures
            r@ == self.path_text(),
    {
        self.path.as_str()
    }
}

impl Clone for SqliteAgentStore {
    fn clone(&self) -> (r: Self)
        ensures
            r.path_text() == self.path_text(),
    {
        SqliteAgentStore { path: self.path.clone() }
    }
}

/// A stored instant read back.
pub open spec fn stored_instant(text: Seq<char>, field: Seq<char>) -> Result<Timestamp, StoreErrorView> {
    match spec_parse_rfc3339(text) {
        Ok(t) => Ok(t),
        Err(m) => Err(StoreErrorView::Corrupt("invalid "@ + field + ": "@ + m)),
    }
}

pub fn parse_time(text: &str, field: &str) -> (r: Result<Timestamp, StoreError>)
    ensures
        match r {
            Ok(t) => stored_instant(text@, field@) == Ok::<Timestamp, StoreErrorView>(t),
            Err(e) => stored_instant(text@, field@) == Err::<Timestamp, StoreErrorView>(e@),
        },
{
    match parse_rfc3339(text) {
        Ok(t) => Ok(t),
        Err(m) => {
            let mut message = "invalid ".to_string();
            message.append(field);
            message.append(": ");
            message.append(m.as_str());
            Err(StoreError::Corrupt(message))
        },
    }
}

/// An optional stored instant read back.
pub open spec fn stored_optional_instant(text: Option<Seq<char>>, field: Seq<char>) -> Result<
    Option<Timestamp>,
    StoreErrorView,
> {
    match text {
        None => Ok(None),
        Some(t) => match stored_instant(t, field) {
            Ok(v) => Ok(Some(v)),
            Err(e) => Err(e),
        },
    }
}

pub fn parse_optional_time(text: &Option<String>, field: &str) -> (r: Result<
    Option<Timestamp>,
    StoreError,
>)
    ensures
        match r {
            Ok(t) => stored_optional_instant(crate::provider::opt_text(*text), field@) == Ok::<
                Option<Timestamp>,
                StoreErrorView,
            >(t),
            Err(e) => stored_optional_instant(crate::provider::opt_text(*text), field@) == Err::<
                Option<Timestamp>,
                StoreErrorView,
            >(e@),
        },
{
    match text {
        None => Ok(None),
        Some(t) => match parse_time(t.as_str(), field) {
            Ok(v) => Ok(Some(v)),
            Err(e) => Err(e),
        },
    }
}

/// A stored visibility name read back.
pub fn parse_visibility(text: &str) -> (r: Result<EventVisibility, StoreError>)
    ensures
        match r {
            Ok(v) => v.spec_name() == text@,
            Err(e) => e@ == StoreErrorView::Corrupt("unknown event visibility: "@ + text@)
                && forall|v: EventVisibility| v.spec_name() != text@,
        },
{
    match EventVisibility::parse(text) {
        Some(v) => Ok(v),
        None => {
            let mut message = "unknown event visibility: ".to_string();
            message.append(text);
            Err(StoreError::Corrupt(message))
        },
    }
}

/// A stored identifier read back; the error is the parser's text.
pub open spec fn stored_bits(text: Seq<char>) -> Result<u128, StoreErrorView> {
    match spec_parse_uuid(text) {
        Ok(bits) => Ok(bits),
        Err(m) => Err(StoreErrorView::Corrupt(m)),
    }
}

fn parse_bits(text: &str) -> (r: Result<u128, StoreError>)
    ensures
        match r {
            Ok(b) => stored_bits(text@) == Ok::<u128, StoreErrorView>(b),
            Err(e) => stored_bits(text@) == Err::<u128, StoreErrorView>(e@),
        },
{
    match parse_uuid_text(text) {
        Ok(bits) => Ok(bits),
        Err(m) => Err(StoreError::Corrupt(m)),
    }
}

/// The columns of one stored execution row, with its JSON columns already
/// parsed.
pub struct ExecutionRow {
    pub kind: String,
    pub status: String,
    pub configuration_digest: String,
    pub cancel_requested: i64,
    pub cancel_reason: Option<CancelReason>,
    pub result_artifact: Option<ArtifactRef>,
    pub error: Option<JsonValue>,
    pub created_at: String,
    pub started_at: Option<String>,
    pub finished_at: Option<String>,
    pub deadline: Option<String>,
    pub version: i64,
}

/// The first fault of a stored execution row, checked as kind, status,
/// created, started, finished and deadline instants, then version.
pub open spec fn execution_row_fault(row: ExecutionRow) -> Option<StoreErrorView> {
    let started = stored_optional_instant(crate::provider::opt_text(row.started_at), "started_at"@);
    let finished = stored_optional_instant(crate::provider::opt_text(row.finished_at), "finished_at"@);
    let deadline = stored_optional_instant(crate::provider::opt_text(row.deadline), "deadline"@);
    if crate::text::spec_is_blank(row.kind@) {
        Some(StoreErrorView::Corrupt("execution kind must not be empty"@))
    } else if forall|s: ExecutionStatus| s.spec_name() != row.status@ {
        Some(StoreErrorView::Corrupt("unknown execution status: "@ + row.status@))
    } else if stored_instant(row.created_at@, "created_at"@) is Err {
        Some(stored_instant(row.created_at@, "created_at"@)->Err_0)
    } else if started is Err {
        Some(started->Err_0)
    } else if finished is Err {
        Some(finished->Err_0)
    } else if deadline is Err {
        Some(deadline->Err_0)
    } else if row.version < 0 {
        Some(StoreErrorView::Corrupt("negative execution version"@))
    } else {
        None
    }
}

/// A record that reads back from a row: every field is the row's, read
/// back.
pub open spec fn reads_back_as(id: ExecutionId, row: ExecutionRow, rec: ExecutionRecord) -> bool {
    &&& rec.id == id
    &&& rec.kind@ == row.kind@
    &&& rec.status.spec_name() == row.status@
    &&& rec.configuration_digest == row.configuration_digest
    &&& rec.cancel_requested == (row.cancel_requested != 0)
    &&& rec.cancel_reason == row.cancel_reason
    &&& rec.result_artifact == row.result_artifact
    &&& rec.error == row.error
    &&& stored_instant(row.created_at@, "created_at"@) == Ok::<Timestamp, StoreErrorView>(
        rec.created_at,
    )
    &&& stored_optional_instant(crate::provider::opt_text(row.started_at), "started_at"@) == Ok::<
        Option<Timestamp>,
        StoreErrorView,
    >(rec.started_at)
    &&& stored_optional_instant(crate::provider::opt_text(row.finished_at), "finished_at"@) == Ok::<
        Option<Timestamp>,
        StoreErrorView,
    >(rec.finished_at)
    &&& stored_optional_instant(crate::provider::opt_text(row.deadline), "deadline"@) == Ok::<
        Option<Timestamp>,
        StoreErrorView,
    >(rec.deadline)
    &&& row.version >= 0 && rec.version == row.version
}

/// One row reads back to one record: two records read back from the same
/// row are the same record, their kinds compared by text.
pub proof fn lemma_row_determines_record(
    id: ExecutionId,
    row: ExecutionRow,
    a: ExecutionRecord,
    b: ExecutionRecord,
)
    requires
        reads_back_as(id, row, a),
        reads_back_as(id, row, b),
    ensures
        a.kind@ == b.kind@,
        a == (ExecutionRecord { kind: a.kind, ..b }),
{
    crate::types::lemma_status_name_round_trip(a.status, b.status);
}

/// Reads one stored execution row back: the kind, status, instants and
/// version must read back; a non-zero flag means cancellation was requested.
pub fn decode_execution(id: ExecutionId, row: ExecutionRow) -> (r: Result<ExecutionRecord, StoreError>)
    ensures
        r matches Ok(rec) ==> reads_back_as(id, row, rec),
        match execution_row_fault(row) {
            Some(f) => r matches Err(e) && e@ == f,
            None => r is Ok,
        },
{
    let kind = match ExecutionKind::new(row.kind.as_str()) {
        Ok(k) => k,
        Err(m) => {
            return Err(StoreError::Corrupt(m.to_string()));
        },
    };
    let status = match ExecutionStatus::parse(row.status.as_str()) {
        Ok(s) => s,
        Err(e) => {
            return Err(StoreError::Corrupt(e.to_text()));
        },
    };
    let created_at = match parse_time(row.created_at.as_str(), "created_at") {
        Ok(t) => t,
        Err(e) => {
            return Err(e);
        },
    };
    let started_at = match parse_optional_time(&row.started_at, "started_at") {
        Ok(t) => t,
        Err(e) => {
            return Err(e);
        },
    };
    let finished_at = match parse_optional_time(&row.finished_at, "finished_at") {
        Ok(t) => t,
        Err(e) => {
            return Err(e);
        },
    };
    let deadline = match parse_optional_time(&row.deadline, "deadline") {
        Ok(t) => t,
        Err(e) => {
            return Err(e);
        },
    };
    if row.version < 0 {
        return Err(StoreError::Corrupt("negative execution version".to_string()));
    }
    Ok(
        ExecutionRecord {
            id,
            kind,
            status,
            configuration_digest: row.configuration_digest,
            cancel_requested: row.cancel_requested != 0,
            cancel_reason: row.cancel_reason,
            result_artifact: row.result_artifact,
            error: row.error,
            created_at,
            started_at,
            finished_at,
            deadline,
            version: row.version as u64,
        },
    )
}

/// The first fault of a stored event row, checked as id, sequence, instant,
/// payload version, then visibility.
pub open spec fn event_row_fault(
    id: Seq<char>,
    sequence: i64,
    occurred_at: Seq<char>,
    payload_version: i64,
    visibility: Seq<char>,
) -> Option<StoreErrorView> {
    if stored_bits(id) is Err {
        Some(stored_bits(id)->Err_0)
    } else if sequence < 0 {
        Some(StoreErrorView::Corrupt("negative event sequence"@))
    } else if stored_instant(occurred_at, "event occurred_at"@) is Err {
        Some(stored_instant(occurred_at, "event occurred_at"@)->Err_0)
    } else if payload_version < 0 || payload_version > u16::MAX {
        Some(StoreErrorView::Corrupt("invalid event payload version"@))
    } else if forall|v: EventVisibility| v.spec_name() != visibility {
        Some(StoreErrorView::Corrupt("unknown event visibility: "@ + visibility))
    } else {
        None
    }
}

/// The visibility a stored name reads back to.
pub open spec fn visibility_named(name: Seq<char>) -> EventVisibility {
    if name == "public"@ {
        EventVisibility::Public
    } else if name == "internal"@ {
        EventVisibility::Internal
    } else {
        EventVisibility::Sensitive
    }
}

/// What one stored event row reads back to.
pub open spec fn event_read(
    execution_id: ExecutionId,
    id: Seq<char>,
    sequence: i64,
    occurred_at: Seq<char>,
    payload_version: i64,
    visibility: Seq<char>,
    data: ExecutionEventData,
) -> Result<ExecutionEvent, StoreErrorView> {
    match event_row_fault(id, sequence, occurred_at, payload_version, visibility) {
        Some(f) => Err(f),
        None => Ok(
            ExecutionEvent {
                id: EventId(stored_bits(id)->Ok_0),
                execution_id,
                sequence: sequence as u64,
                occurred_at: stored_instant(occurred_at, "event occurred_at"@)->Ok_0,
                payload_version: payload_version as u16,
                visibility: visibility_named(visibility),
                data,
            },
        ),
    }
}

/// Reads one stored event row back, with its payload already parsed.
pub fn decode_event(
    execution_id: ExecutionId,
    id: &str,
    sequence: i64,
    occurred_at: &str,
    payload_version: i64,
    visibility: &str,
    data: ExecutionEventData,
) -> (r: Result<ExecutionEvent, StoreError>)
    ensures
        r matches Ok(e) ==> {
            &&& stored_bits(id@) == Ok::<u128, StoreErrorView>(e.id.0)
            &&& e.execution_id == execution_id
            &&& sequence >= 0 && e.sequence == sequence
            &&& stored_instant(occurred_at@, "event occurred_at"@) == Ok::<
                Timestamp,
                StoreErrorView,
            >(e.occurred_at)
            &&& 0 <= payload_version <= u16::MAX && e.payload_version == payload_version
            &&& e.visibility.spec_name() == visibility@
            &&& e.data == data
        },
        match event_row_fault(id@, sequence, occurred_at@, payload_version, visibility@) {
            Some(f) => r matches Err(x) && x@ == f,
            None => r is Ok,
        },
        match event_read(execution_id, id@, sequence, occurred_at@, payload_version, visibility@, data) {
            Ok(e) => r == Ok::<ExecutionEvent, StoreError>(e),
            Err(v) => r matches Err(x) && x@ == v,
        },
{
    let bits = match parse_bits(id) {
        Ok(b) => b,
        Err(e) => {
            return Err(e);
        },
    };
    if sequence < 0 {
        return Err(StoreError::Corrupt("negative event sequence".to_string()));
    }
    let occurred = match parse_time(occurred_at, "event occurred_at") {
        Ok(t) => t,
        Err(e) => {
            return Err(e);
        },
    };
    if payload_version < 0 || payload_version > u16::MAX as i64 {
        return Err(StoreError::Corrupt("invalid event payload version".to_string()));
    }
    let ghost name = visibility@;
    let visibility = match parse_visibility(visibility) {
        Ok(v) => v,
        Err(e) => {
            return Err(e);
        },
    };
    proof {
        reveal_strlit("public");
        reveal_strlit("internal");
        reveal_strlit("sensitive");
        assert(visibility.spec_name() == name);
        assert("public"@.len() == 6 && "internal"@.len() == 8 && "sensitive"@.len() == 9);
        assert(visibility == visibility_named(name));
    }
    Ok(
        ExecutionEvent {
            id: EventId(bits),
            execution_id,
            sequence: sequence as u64,
            occurred_at: occurred,
            payload_version: payload_version as u16,
            visibility,
            data,
        },
    )
}

/// What one stored artifact row reads back to.
pub open spec fn artifact_read(
    id: Seq<char>,
    digest: String,
    media_type: String,
    size_bytes: i64,
    storage_uri: String,
) -> Result<ArtifactRef, StoreErrorView> {
    match stored_bits(id) {
        Err(e) => Err(e),
        Ok(bits) => if size_bytes < 0 {
            Err(StoreErrorView::Corrupt("negative artifact size"@))
        } else {
            Ok(
                ArtifactRef {
                    id: ArtifactId(bits),
                    digest,
                    media_type,
                    size_bytes: size_bytes as u64,
                    storage_uri,
                },
            )
        },
    }
}

/// Reads one stored artifact row back.
pub fn decode_artifact(
    id: &str,
    digest: String,
    media_type: String,
    size_bytes: i64,
    storage_uri: String,
) -> (r: Result<ArtifactRef, StoreError>)
    ensures
        match artifact_read(id@, digest, media_type, size_bytes, storage_uri) {
            Ok(a) => r == Ok::<ArtifactRef, StoreError>(a),
            Err(v) => r matches Err(x) && x@ == v,
        },
{
    let bits = match parse_bits(id) {
        Ok(b) => b,
        Err(e) => {
            return Err(e);
        },
    };
    if size_bytes < 0 {
        return Err(StoreError::Corrupt("negative artifact size".to_string()));
    }
    Ok(ArtifactRef { id: ArtifactId(bits), digest, media_type, size_bytes: size_bytes as u64, storage_uri })
}

/// An instant's stored text, or a backend error naming the field when
/// `chrono` cannot represent it.
fn stored_instant_text(t: Timestamp, field: &str) -> (r: Result<String, StoreError>)
    ensures
        r matches Ok(text) ==> text@ == spec_instant_text(t),
        r matches Err(e) ==> !four_digit_year(t) && e@ == StoreErrorView::PermanentBackend(
            field@ + " out of range"@,
        ),
        four_digit_year(t) ==> (r matches Ok(text) && stored_instant(text@, field@) == Ok::<
            Timestamp,
            StoreErrorView,
        >(t)),
{
    match instant_text(t) {
        Some(text) => Ok(text),
        None => {
            let mut message = field.to_string();
            message.append(" out of range");
            Err(StoreError::PermanentBackend(message))
        },
    }
}

/// Every instant of the record has a four-digit year.
pub open spec fn instants_four_digit(record: ExecutionRecord) -> bool {
    &&& four_digit_year(record.created_at)
    &&& (record.started_at matches Some(t) ==> four_digit_year(t))
    &&& (record.finished_at matches Some(t) ==> four_digit_year(t))
    &&& (record.deadline matches Some(t) ==> four_digit_year(t))
}

/// An optional instant's stored text.
fn optional_instant_text(t: Option<Timestamp>, field: &str) -> (r: Result<Option<String>, StoreError>)
    ensures
        r matches Ok(text) ==> (t is None <==> text is None),
        r matches Err(e) ==> (t matches Some(u) && !four_digit_year(u)) && e@
            == StoreErrorView::PermanentBackend(field@ + " out of range"@),
        (t matches Some(u) ==> four_digit_year(u)) ==> (r matches Ok(text)
            && stored_optional_instant(crate::provider::opt_text(text), field@) == Ok::<
            Option<Timestamp>,
            StoreErrorView,
        >(t)),
{
    match t {
        None => Ok(None),
        Some(u) => match stored_instant_text(u, field) {
            Ok(text) => Ok(Some(text)),
            Err(e) => Err(e),
        },
    }
}

/// The row a record is stored as. What is written reads back as the same
/// record when its instants have four-digit years.
pub fn execution_row(record: &ExecutionRecord) -> (r: Result<ExecutionRow, StoreError>)
    ensures
        record.version > i64::MAX ==> (r matches Err(e) && e@ == StoreErrorView::PermanentBackend(
            "execution version overflow"@,
        )),
        r is Err ==> record.version > i64::MAX || !instants_four_digit(*record),
        record.version <= i64::MAX && instants_four_digit(*record) ==> r is Ok,
        r matches Ok(row) ==> (instants_four_digit(*record) ==> execution_row_fault(row) is None
            && reads_back_as(record.id, row, *record)),
{
    if record.version > 0x7fff_ffff_ffff_ffff {
        return Err(StoreError::PermanentBackend("execution version overflow".to_string()));
    }
    let created_at = match stored_instant_text(record.created_at, "created_at") {
        Ok(text) => text,
        Err(e) => {
            return Err(e);
        },
    };
    let started_at = match optional_instant_text(record.started_at, "started_at") {
        Ok(text) => text,
        Err(e) => {
            return Err(e);
        },
    };
    let finished_at = match optional_instant_text(record.finished_at, "finished_at") {
        Ok(text) => text,
        Err(e) => {
            return Err(e);
        },
    };
    let deadline = match optional_instant_text(record.deadline, "deadline") {
        Ok(text) => text,
        Err(e) => {
            return Err(e);
        },
    };
    let kind = record.kind.as_str().to_string();
    let status = record.status.as_str().to_string();
    let row = ExecutionRow {
        kind,
        status,
        configuration_digest: record.configuration_digest.clone(),
        cancel_requested: if record.cancel_requested {
            1
        } else {
            0
        },
        cancel_reason: crate::types::clone_reason(&record.cancel_reason),
        result_artifact: crate::types::clone_artifact(&record.result_artifact),
        error: crate::types::clone_json(&record.error),
        created_at,
        started_at,
        finished_at,
        deadline,
        version: record.version as i64,
    };
    proof {
        use_type_invariant(&record.kind);
    }
    Ok(row)
}

/// The columns one event is stored under.
pub struct EventColumns {
    pub id: String,
    pub execution_id: String,
    pub sequence: i64,
    pub occurred_at: String,
    pub payload_version: i64,
    pub visibility: &'static str,
    pub kind: &'static str,
}

/// The columns of an event. What is written reads back as the same event.
pub fn event_columns(e: &ExecutionEvent) -> (r: Result<EventColumns, StoreError>)
    ensures
        match r {
            Ok(c) => {
                &&& c.id@ == spec_uuid_text(e.id.0)
                &&& c.execution_id@ == spec_uuid_text(e.execution_id.0)
                &&& c.sequence == e.sequence
                &&& c.occurred_at@ == spec_instant_text(e.occurred_at)
                &&& c.payload_version == e.payload_version
                &&& c.visibility@ == e.visibility.spec_name()
                &&& c.kind == e.data.spec_kind()
            },
            Err(x) => if e.sequence > i64::MAX {
                x@ == StoreErrorView::PermanentBackend("event sequence overflow"@)
            } else {
                !four_digit_year(e.occurred_at) && x@ == StoreErrorView::PermanentBackend(
                    "event occurred_at out of range"@,
                )
            },
        },
        e.sequence <= i64::MAX && four_digit_year(e.occurred_at) ==> r is Ok,
        r matches Ok(c) ==> (four_digit_year(e.occurred_at) ==> event_read(
            e.execution_id,
            c.id@,
            c.sequence,
            c.occurred_at@,
            c.payload_version,
            c.visibility@,
            e.data,
        ) == Ok::<ExecutionEvent, StoreErrorView>(*e)),
{
    if e.sequence > 0x7fff_ffff_ffff_ffff {
        return Err(StoreError::PermanentBackend("event sequence overflow".to_string()));
    }
    proof {
        reveal_strlit("event occurred_at");
        reveal_strlit(" out of range");
        reveal_strlit("event occurred_at out of range");
        assert("event occurred_at"@ + " out of range"@ =~= "event occurred_at out of range"@);
    }
    let occurred_at = match stored_instant_text(e.occurred_at, "event occurred_at") {
        Ok(text) => text,
        Err(x) => {
            return Err(x);
        },
    };
    proof {
        reveal_strlit("public");
        reveal_strlit("internal");
        reveal_strlit("sensitive");
        assert("public"@.len() == 6 && "internal"@.len() == 8 && "sensitive"@.len() == 9);
        assert(visibility_named(e.visibility.spec_name()) == e.visibility);
    }
    Ok(
        EventColumns {
            id: uuid_text(e.id.0),
            execution_id: uuid_text(e.execution_id.0),
            sequence: e.sequence as i64,
            occurred_at,
            payload_version: e.payload_version as i64,
            visibility: e.visibility.as_str(),
            kind: e.data.kind(),
        },
    )
}

/// The columns one artifact is stored under besides its texts.
pub struct ArtifactColumns {
    pub id: String,
    pub size_bytes: i64,
}

/// The columns of an artifact. What is written reads back as the same
/// artifact.
pub fn artifact_columns(a: &ArtifactRef) -> (r: Result<ArtifactColumns, StoreError>)
    ensures
        match r {
            Ok(c) => c.id@ == spec_uuid_text(a.id.0) && c.size_bytes == a.size_bytes,
            Err(x) => a.size_bytes > i64::MAX && x@ == StoreErrorView::PermanentBackend(
                "artifact too large"@,
            ),
        },
        a.size_bytes <= i64::MAX ==> r is Ok,
        r matches Ok(c) ==> artifact_read(c.id@, a.digest, a.media_type, c.size_bytes, a.storage_uri)
            == Ok::<ArtifactRef, StoreErrorView>(*a),
{
    if a.size_bytes > 0x7fff_ffff_ffff_ffff {
        return Err(StoreError::PermanentBackend("artifact too large".to_string()));
    }
    Ok(ArtifactColumns { id: uuid_text(a.id.0), size_bytes: a.size_bytes as i64 })
}

} // verus!
