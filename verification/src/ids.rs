//! Identifiers and instants.
//!
//! Every identifier holds the 128 bits of a UUID. A fresh identifier is a
//! time-ordered UUID (version 7); the library never interprets its bits.

use vstd::prelude::*;

verus! {

/// The UUID's version, the high nibble of its seventh byte, is 7: bits 76 to
/// 79 of the big-endian `u128` hold 7.
pub open spec fn is_version_7(bits: u128) -> bool {
    (bits / 0x1000_0000_0000_0000_0000u128) % 16 == 7
}

/// Calls `uuid::Uuid::now_v7` and returns its bits, which `as_u128` packs
/// most significant byte first. The function's documentation promises a
/// version 7 UUID, and that is all that is claimed: the other bits depend on
/// the clock and on chance.
#[verifier::external_body]
fn fresh_uuid_bits() -> (r: u128)
    ensures
        is_version_7(r),
{
    uuid::Uuid::now_v7().as_u128()
}

/// The lower-case hex digit for `d`, below sixteen.
pub open spec fn hex_char(d: nat) -> char {
    if d < 10 {
        (48 + d) as char
    } else {
        (87 + d) as char
    }
}

/// The `k`-th hex digit of the bits, counted from the most significant.
pub open spec fn uuid_nibble(bits: u128, k: int) -> nat {
    ((bits as nat / vstd::arithmetic::power2::pow2((4 * (31 - k)) as nat)) % 16) as nat
}

/// Which hex digit stands at position `i` of the hyphenated text.
pub open spec fn nibble_at(i: int) -> int {
    if i < 8 {
        i
    } else if i < 13 {
        i - 1
    } else if i < 18 {
        i - 2
    } else if i < 23 {
        i - 3
    } else {
        i - 4
    }
}

/// The hyphenated lower-case text of the bits: 32 hex digits, most
/// significant first, in groups of 8-4-4-4-12.
pub open spec fn spec_uuid_text(bits: u128) -> Seq<char> {
    Seq::new(
        36,
        |i: int|
            if i == 8 || i == 13 || i == 18 || i == 23 {
                '-'
            } else {
                hex_char(uuid_nibble(bits, nibble_at(i)))
            },
    )
}

/// Calls `Uuid::from_u128(bits).to_string()`. The documentation fixes the
/// form: the hyphenated text, 32 lower-case hex digits in groups of
/// 8-4-4-4-12, and `Uuid::parse_str` reads that form back to the same bits.
#[verifier::external_body]
pub fn uuid_text(bits: u128) -> (r: String)
    ensures
        r@ == spec_uuid_text(bits),
        r@.len() == 36,
        (spec_parse_uuid(r@) == Ok::<u128, Seq<char>>(bits)),
{
    uuid::Uuid::from_u128(bits).to_string()
}

/// Identifies one runtime execution.
#[derive(Clone, Copy, Debug, PartialEq, Eq, Hash, PartialOrd, Ord, Structural)]
pub struct ExecutionId(pub u128);

/// Identifies one runtime event.
#[derive(Clone, Copy, Debug, PartialEq, Eq, Hash, PartialOrd, Ord, Structural)]
pub struct EventId(pub u128);

/// Identifies one stored artifact.
#[derive(Clone, Copy, Debug, PartialEq, Eq, Hash, PartialOrd, Ord, Structural)]
pub struct ArtifactId(pub u128);

/// Identifies one Agent run.
#[derive(Clone, Copy, Debug, PartialEq, Eq, Hash, PartialOrd, Ord, Structural)]
pub struct AgentRunId(pub u128);

/// Identifies one durable Agent entry.
#[derive(Clone, Copy, Debug, PartialEq, Eq, Hash, PartialOrd, Ord, Structural)]
pub struct AgentEntryId(pub u128);

/// Identifies one model attempt.
#[derive(Clone, Copy, Debug, PartialEq, Eq, Hash, PartialOrd, Ord, Structural)]
pub struct ModelAttemptId(pub u128);

/// Identifies one tool attempt.
#[derive(Clone, Copy, Debug, PartialEq, Eq, Hash, PartialOrd, Ord, Structural)]
pub struct ToolAttemptId(pub u128);

/// Identifies one logical tool call, across all of its attempts.
#[derive(Clone, Copy, Debug, PartialEq, Eq, Hash, PartialOrd, Ord, Structural)]
pub struct LogicalToolCallId(pub u128);

impl ExecutionId {
    /// A fresh time-ordered identifier: a version 7 UUID.
    pub fn new() -> (r: Self)
        ensures
            is_version_7(r.0),
    {
        ExecutionId(fresh_uuid_bits())
    }

    pub fn from_u128(bits: u128) -> (r: Self)
        ensures
            r.0 == bits,
    {
        ExecutionId(bits)
    }

    pub fn as_u128(self) -> (r: u128)
        ensures
            r == self.0,
    {
        self.0
    }

    /// The identifier's hyphenated text.
    pub fn to_text(self) -> (r: String)
        ensures
            r@ == spec_uuid_text(self.0),
    {
        uuid_text(self.0)
    }
}

impl EventId {
    /// A fresh time-ordered identifier: a version 7 UUID.
    pub fn new() -> (r: Self)
        ensures
            is_version_7(r.0),
    {
        EventId(fresh_uuid_bits())
    }

    pub fn from_u128(bits: u128) -> (r: Self)
        ensures
            r.0 == bits,
    {
        EventId(bits)
    }

    pub fn as_u128(self) -> (r: u128)
        ensures
            r == self.0,
    {
        self.0
    }

    /// The identifier's hyphenated text.
    pub fn to_text(self) -> (r: String)
        ensures
            r@ == spec_uuid_text(self.0),
    {
        uuid_text(self.0)
    }
}

impl ArtifactId {
    /// A fresh time-ordered identifier: a version 7 UUID.
    pub fn new() -> (r: Self)
        ensures
            is_version_7(r.0),
    {
        ArtifactId(fresh_uuid_bits())
    }

    pub fn from_u128(bits: u128) -> (r: Self)
        ensures
            r.0 == bits,
    {
        ArtifactId(bits)
    }

    pub fn as_u128(self) -> (r: u128)
        ensures
            r == self.0,
    {
        self.0
    }

    /// The identifier's hyphenated text.
    pub fn to_text(self) -> (r: String)
        ensures
            r@ == spec_uuid_text(self.0),
    {
        uuid_text(self.0)
    }
}

impl AgentRunId {
    /// A fresh time-ordered identifier: a version 7 UUID.
    pub fn new() -> (r: Self)
        ensures
            is_version_7(r.0),
    {
        AgentRunId(fresh_uuid_bits())
    }

    pub fn from_u128(bits: u128) -> (r: Self)
        ensures
            r.0 == bits,
    {
        AgentRunId(bits)
    }

    pub fn as_u128(self) -> (r: u128)
        ensures
            r == self.0,
    {
        self.0
    }

    /// The identifier's hyphenated text.
    pub fn to_text(self) -> (r: String)
        ensures
            r@ == spec_uuid_text(self.0),
    {
        uuid_text(self.0)
    }
}

impl AgentEntryId {
    /// A fresh time-ordered identifier: a version 7 UUID.
    pub fn new() -> (r: Self)
        ensures
            is_version_7(r.0),
    {
        AgentEntryId(fresh_uuid_bits())
    }

    pub fn from_u128(bits: u128) -> (r: Self)
        ensures
            r.0 == bits,
    {
        AgentEntryId(bits)
    }

    pub fn as_u128(self) -> (r: u128)
        ensures
            r == self.0,
    {
        self.0
    }

    /// The identifier's hyphenated text.
    pub fn to_text(self) -> (r: String)
        ensures
            r@ == spec_uuid_text(self.0),
    {
        uuid_text(self.0)
    }
}

impl ModelAttemptId {
    /// A fresh time-ordered identifier: a version 7 UUID.
    pub fn new() -> (r: Self)
        ensures
            is_version_7(r.0),
    {
        ModelAttemptId(fresh_uuid_bits())
    }

    pub fn from_u128(bits: u128) -> (r: Self)
        ensures
            r.0 == bits,
    {
        ModelAttemptId(bits)
    }

    pub fn as_u128(self) -> (r: u128)
        ensures
            r == self.0,
    {
        self.0
    }

    /// The identifier's hyphenated text.
    pub fn to_text(self) -> (r: String)
        ensures
            r@ == spec_uuid_text(self.0),
    {
        uuid_text(self.0)
    }
}

impl ToolAttemptId {
    /// A fresh time-ordered identifier: a version 7 UUID.
    pub fn new() -> (r: Self)
        ensures
            is_version_7(r.0),
    {
        ToolAttemptId(fresh_uuid_bits())
    }

    pub fn from_u128(bits: u128) -> (r: Self)
        ensures
            r.0 == bits,
    {
        ToolAttemptId(bits)
    }

    pub fn as_u128(self) -> (r: u128)
        ensures
            r == self.0,
    {
        self.0
    }

    /// The identifier's hyphenated text.
    pub fn to_text(self) -> (r: String)
        ensures
            r@ == spec_uuid_text(self.0),
    {
        uuid_text(self.0)
    }
}

impl LogicalToolCallId {
    /// A fresh time-ordered identifier: a version 7 UUID.
    pub fn new() -> (r: Self)
        ensures
            is_version_7(r.0),
    {
        LogicalToolCallId(fresh_uuid_bits())
    }

    pub fn from_u128(bits: u128) -> (r: Self)
        ensures
            r.0 == bits,
    {
        LogicalToolCallId(bits)
    }

    pub fn as_u128(self) -> (r: u128)
        ensures
            r == self.0,
    {
        self.0
    }

    /// The identifier's hyphenated text.
    pub fn to_text(self) -> (r: String)
        ensures
            r@ == spec_uuid_text(self.0),
    {
        uuid_text(self.0)
    }
}

/// The bits of the UUID the text names, or the parser's message when the
/// text is not a UUID.
pub uninterp spec fn spec_parse_uuid(text: Seq<char>) -> Result<u128, Seq<char>>;

/// Calls `uuid::Uuid::parse_str` and keeps the bits, or the error's text.
/// The contract claims only that the outcome is a function of the text.
#[verifier::external_body]
pub fn parse_uuid_text(text: &str) -> (r: Result<u128, String>)
    ensures
        match r {
            Ok(bits) => spec_parse_uuid(text@) == Ok::<u128, Seq<char>>(bits),
            Err(m) => spec_parse_uuid(text@) == Err::<u128, Seq<char>>(m@),
        },
{
    match uuid::Uuid::parse_str(text) {
        Ok(id) => Ok(id.as_u128()),
        Err(error) => Err(error.to_string()),
    }
}

/// An instant: whole seconds since the Unix epoch plus nanoseconds.
#[derive(Clone, Copy, Debug, PartialEq, Eq, Hash, PartialOrd, Ord, Structural)]
pub struct Timestamp {
    pub seconds: i64,
    pub nanos: u32,
}

impl Timestamp {
    /// The instant `seconds` after the epoch, plus `nanos`.
    pub fn from_unix(seconds: i64, nanos: u32) -> (r: Self)
        ensures
            r.seconds == seconds,
            r.nanos == nanos,
    {
        Timestamp { seconds, nanos }
    }
}

/// The instant an RFC 3339 text names, or the parser's message.
pub uninterp spec fn spec_parse_rfc3339(text: Seq<char>) -> Result<Timestamp, Seq<char>>;

/// Calls `chrono::DateTime::parse_from_rfc3339` and takes the instant in UTC
/// as seconds and nanoseconds, or the error's text. The contract claims only
/// that the outcome is a function of the text.
#[verifier::external_body]
pub fn parse_rfc3339(text: &str) -> (r: Result<Timestamp, String>)
    ensures
        match r {
            Ok(t) => spec_parse_rfc3339(text@) == Ok::<Timestamp, Seq<char>>(t),
            Err(m) => spec_parse_rfc3339(text@) == Err::<Timestamp, Seq<char>>(m@),
        },
{
    match chrono::DateTime::parse_from_rfc3339(text) {
        Ok(t) => Ok(Timestamp { seconds: t.timestamp(), nanos: t.timestamp_subsec_nanos() }),
        Err(error) => Err(error.to_string()),
    }
}

/// The RFC 3339 text `chrono` writes for an instant.
pub uninterp spec fn spec_instant_text(t: Timestamp) -> Seq<char>;

/// An instant in the years 1 to 9999 with fewer than a billion nanoseconds:
/// RFC 3339 writes its year with four digits.
pub open spec fn four_digit_year(t: Timestamp) -> bool {
    -62135596800 <= t.seconds <= 253402300799 && t.nanos < 1_000_000_000
}

/// Calls `chrono::DateTime::from_timestamp` and writes the instant with
/// `to_rfc3339`; `None` when `chrono` cannot represent the instant. The
/// contract names the text and states what the source of both functions
/// gives: an instant with a four-digit year is representable, and
/// `DateTime::parse_from_rfc3339` reads its text back to the same seconds and
/// nanoseconds.
#[verifier::external_body]
pub fn instant_text(t: Timestamp) -> (r: Option<String>)
    ensures
        r matches Some(text) ==> text@ == spec_instant_text(t),
        four_digit_year(t) ==> r is Some,
        four_digit_year(t) ==> (spec_parse_rfc3339(r->Some_0@) == Ok::<Timestamp, Seq<char>>(t)),
{
    chrono::DateTime::from_timestamp(t.seconds, t.nanos).map(|d| d.to_rfc3339())
}

} // verus!
