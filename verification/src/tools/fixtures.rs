//! Deterministic fixture tools: a pure echo and a synthetic effect that may
//! never be replayed.

use crate::json::{JsonValue, JsonMembers};
use crate::text::is_ascii_alphanumeric;
use crate::tools::identity::{ToolId, ToolIdentity, ToolSpec, ToolVersion};
use crate::tools::tool::{
    EffectDescriptor, ReplayPolicy, Tool, ToolExecutionError, ToolInvocationOutcome, ToolOutput,
};
use std::sync::Arc;
use vstd::prelude::*;

verus! {

/// An observable effect seam, used by `test.unsafe_once`; implemented by
/// the library's users.
pub trait EffectProbe {
    fn observe(&self, key: &str);
}

/// The pin `id` at version `1`, without an implementation digest.
pub open spec fn is_fixture_identity(identity: ToolIdentity, id: Seq<char>) -> bool {
    &&& identity.id@ == id
    &&& identity.version@ == "1"@
    &&& identity.implementation_digest is None
}

fn fixture_identity(id: &str) -> (r: ToolIdentity)
    requires
        id@.len() > 0 && is_ascii_alphanumeric(id@[0]),
    ensures
        is_fixture_identity(r, id@),
{
    proof {
        reveal_strlit("1");
        assert(is_ascii_alphanumeric("1"@[0]));
    }
    let version = match ToolVersion::new("1") {
        Ok(v) => v,
        Err(_) => unreached(),
    };
    let id = match ToolId::new(id) {
        Ok(i) => i,
        Err(_) => unreached(),
    };
    ToolIdentity { id, version, implementation_digest: None }
}

fn text(s: &str) -> (r: JsonValue)
    ensures
        r matches JsonValue::String(t) && t@ == s@,
{
    JsonValue::string(s)
}

fn member(key: &str, value: JsonValue) -> (r: (String, JsonValue))
    ensures
        r.0@ == key@,
        r.1 == value,
{
    (key.to_string(), value)
}

/// A JSON string whose text is `t`.
pub open spec fn is_text(v: JsonValue, t: Seq<char>) -> bool {
    v matches JsonValue::String(s) && s@ == t
}

/// The draft a fixture schema declares.
fn draft_member() -> (r: (String, JsonValue))
    ensures
        r.0@ == "$schema"@,
        is_text(r.1, "https://json-schema.org/draft/2020-12/schema"@),
{
    member("$schema", text("https://json-schema.org/draft/2020-12/schema"))
}

/// A fixture's input schema: the 2020-12 draft, an object whose one
/// required member is `required`, with no members beyond its properties.
/// Its keys stand in sorted order, as in a parsed document.
pub open spec fn is_fixture_schema(schema: JsonValue, required: Seq<char>) -> bool {
    &&& schema matches JsonValue::Object(m)
    &&& m.entries().len() == 5
    &&& m.entries()[0].0@ == "$schema"@
    &&& is_text(m.entries()[0].1, "https://json-schema.org/draft/2020-12/schema"@)
    &&& m.entries()[1].0@ == "additionalProperties"@
    &&& m.entries()[1].1 == JsonValue::Bool(false)
    &&& m.entries()[2].0@ == "properties"@
    &&& m.entries()[3].0@ == "required"@
    &&& m.entries()[3].1 matches JsonValue::Array(l)
    &&& l.items().len() == 1
    &&& is_text(l.items()[0], required)
    &&& m.entries()[4].0@ == "type"@
    &&& is_text(m.entries()[4].1, "object"@)
}

/// The `properties` member of a fixture schema.
pub open spec fn fixture_properties(schema: JsonValue) -> JsonValue {
    match schema {
        JsonValue::Object(m) => m.entries()[2].1,
        _ => JsonValue::Null,
    }
}

/// The echo's properties: `{"value": {}}`, any value at all.
pub open spec fn is_echo_properties(p: JsonValue) -> bool {
    &&& p matches JsonValue::Object(m)
    &&& m.entries().len() == 1
    &&& m.entries()[0].0@ == "value"@
    &&& m.entries()[0].1 matches JsonValue::Object(any)
    &&& any.entries().len() == 0
}

/// The synthetic fixture's properties: `{"key": {"minLength": 1, "type":
/// "string"}}`.
pub open spec fn is_unsafe_once_properties(p: JsonValue) -> bool {
    &&& p matches JsonValue::Object(m)
    &&& m.entries().len() == 1
    &&& m.entries()[0].0@ == "key"@
    &&& m.entries()[0].1 matches JsonValue::Object(k)
    &&& k.entries().len() == 2
    &&& k.entries()[0].0@ == "minLength"@
    &&& k.entries()[0].1 matches JsonValue::Number(n)
    &&& n@ == "1"@
    &&& k.entries()[1].0@ == "type"@
    &&& is_text(k.entries()[1].1, "string"@)
}

/// The value `{"value": v}`.
pub open spec fn is_value_object(r: JsonValue, v: JsonValue) -> bool {
    r matches JsonValue::Object(m) && m.entries().len() == 1 && m.entries()[0].0@ == "value"@
        && m.entries()[0].1 == v
}

/// The pure, replay-safe echo fixture.
#[derive(Clone, Copy, Debug, Default)]
pub struct EchoTool;

impl EchoTool {
    pub fn identity() -> (r: ToolIdentity)
        ensures
            is_fixture_identity(r, "test.echo"@),
    {
        proof {
            reveal_strlit("test.echo");
            assert(is_ascii_alphanumeric("test.echo"@[0]));
        }
        fixture_identity("test.echo")
    }

    /// The echo's result for the arguments: the `value` member wrapped as
    /// `{"value": ...}`, an ordinary error when it is missing, or
    /// cancellation when the call was cancelled.
    pub fn outcome(arguments: &JsonValue, cancelled: bool) -> (r: ToolInvocationOutcome)
        ensures
            cancelled ==> r is Cancelled,
            !cancelled ==> match arguments.spec_member("value"@) {
                Some(v) => r matches ToolInvocationOutcome::Output(out) && is_value_object(
                    out.content,
                    v,
                ),
                None => r matches ToolInvocationOutcome::OrdinaryError(e) && e.code@
                    == "invalid_arguments"@ && e.message@ == "test.echo requires value"@,
            },
    {
        if cancelled {
            return ToolInvocationOutcome::Cancelled;
        }
        match arguments.member("value") {
            Some(value) => {
                let content = JsonValue::object(vec![member("value", value.clone())]);
                ToolInvocationOutcome::Output(ToolOutput { content })
            },
            None => ToolInvocationOutcome::OrdinaryError(
                ToolExecutionError::new("invalid_arguments", "test.echo requires value"),
            ),
        }
    }
}

impl Tool for EchoTool {
    /// The echo reports its one spec.
    open spec fn reports(&self, spec: ToolSpec) -> bool {
        &&& is_fixture_identity(spec.identity, "test.echo"@)
        &&& spec.description@ == "Return the input value."@
        &&& is_fixture_schema(spec.input_schema, "value"@)
        &&& is_echo_properties(fixture_properties(spec.input_schema))
    }

    fn spec(&self) -> (r: ToolSpec)
        ensures
            is_fixture_identity(r.identity, "test.echo"@),
            r.description@ == "Return the input value."@,
            is_fixture_schema(r.input_schema, "value"@),
            is_echo_properties(fixture_properties(r.input_schema)),
    {
        let properties = JsonValue::object(vec![member("value", JsonValue::object(Vec::new()))]);
        ToolSpec {
            identity: EchoTool::identity(),
            description: "Return the input value.".to_string(),
            input_schema: JsonValue::object(
                vec![
                    draft_member(),
                    member("additionalProperties", JsonValue::Bool(false)),
                    member("properties", properties),
                    member("required", JsonValue::array(vec![text("value")])),
                    member("type", text("object")),
                ],
            ),
        }
    }

    /// The echo is always the pure effect `test.echo`.
    open spec fn classifies(
        &self,
        arguments: JsonValue,
        effect: Result<EffectDescriptor, ToolExecutionError>,
    ) -> bool {
        effect matches Ok(EffectDescriptor::Pure { kind }) && kind@ == "test.echo"@
    }

    /// The echo is always safe to replay.
    open spec fn replays(&self, arguments: JsonValue, replay: ReplayPolicy) -> bool {
        replay == ReplayPolicy::Safe
    }

    fn effect(&self, arguments: &JsonValue) -> (r: Result<EffectDescriptor, ToolExecutionError>)
        ensures
            r matches Ok(EffectDescriptor::Pure { kind }) && kind@ == "test.echo"@,
    {
        Ok(EffectDescriptor::Pure { kind: "test.echo".to_string() })
    }

    fn replay_policy(&self, arguments: &JsonValue) -> (r: ReplayPolicy)
        ensures
            r == ReplayPolicy::Safe,
    {
        ReplayPolicy::Safe
    }
}

/// The value `{"applied": true, "key": k}`.
pub open spec fn is_applied_object(r: JsonValue, k: Seq<char>) -> bool {
    &&& r matches JsonValue::Object(m)
    &&& m.entries().len() == 2
    &&& m.entries()[0].0@ == "applied"@
    &&& m.entries()[0].1 == JsonValue::Bool(true)
    &&& m.entries()[1].0@ == "key"@
    &&& m.entries()[1].1 matches JsonValue::String(s)
    &&& s@ == k
}

/// The non-empty string member `key` of the arguments.
pub open spec fn spec_required_key(arguments: JsonValue) -> Option<Seq<char>> {
    match arguments.spec_member("key"@) {
        Some(JsonValue::String(k)) => if k@.len() > 0 {
            Some(k@)
        } else {
            None
        },
        _ => None,
    }
}

fn required_key(arguments: &JsonValue) -> (r: Result<&String, ToolExecutionError>)
    ensures
        match r {
            Ok(k) => spec_required_key(*arguments) == Some(k@),
            Err(e) => spec_required_key(*arguments) is None && e.code@ == "invalid_arguments"@
                && e.message@ == "test.unsafe_once requires non-empty key"@,
        },
{
    match arguments.member("key") {
        Some(JsonValue::String(k)) => {
            if !k.as_str().is_empty() {
                return Ok(k);
            }
        },
        _ => {},
    }
    Err(ToolExecutionError::new("invalid_arguments", "test.unsafe_once requires non-empty key"))
}

/// The synthetic fixture whose direct execution is observable and which is
/// never replay-safe.
pub struct UnsafeOnceTool<E: EffectProbe + ?Sized> {
    probe: Arc<E>,
}

impl<E: EffectProbe + ?Sized> UnsafeOnceTool<E> {
    /// The probe that observes each direct execution.
    pub closed spec fn observer(&self) -> Arc<E> {
        self.probe
    }

    pub fn new(probe: Arc<E>) -> (r: Self)
        ensures
            r.observer() == probe,
    {
        UnsafeOnceTool { probe }
    }

    pub fn identity() -> (r: ToolIdentity)
        ensures
            is_fixture_identity(r, "test.unsafe_once"@),
    {
        proof {
            reveal_strlit("test.unsafe_once");
            assert(is_ascii_alphanumeric("test.unsafe_once"@[0]));
        }
        fixture_identity("test.unsafe_once")
    }

    /// Runs the synthetic effect: the probe observes the key once, and the
    /// result is `{"applied": true, "key": key}`. A cancelled call or one
    /// without a non-empty key observes nothing.
    pub fn apply(&self, arguments: &JsonValue, cancelled: bool) -> (r: ToolInvocationOutcome)
        ensures
            cancelled ==> r is Cancelled,
            !cancelled ==> match spec_required_key(*arguments) {
                Some(k) => r matches ToolInvocationOutcome::Output(out) && is_applied_object(
                    out.content,
                    k,
                ),
                None => r matches ToolInvocationOutcome::OrdinaryError(e) && e.code@
                    == "invalid_arguments"@,
            },
    {
        if cancelled {
            return ToolInvocationOutcome::Cancelled;
        }
        let key = match required_key(arguments) {
            Ok(key) => key,
            Err(error) => {
                return ToolInvocationOutcome::OrdinaryError(error);
            },
        };
        self.probe.observe(key.as_str());
        let content = JsonValue::object(
            vec![member("applied", JsonValue::Bool(true)), member("key", text(key.as_str()))],
        );
        ToolInvocationOutcome::Output(ToolOutput { content })
    }
}

/// The attributes `{"key": k}` of the synthetic effect.
pub open spec fn is_key_object(r: JsonValue, k: Seq<char>) -> bool {
    &&& r matches JsonValue::Object(m)
    &&& m.entries().len() == 1
    &&& m.entries()[0].0@ == "key"@
    &&& is_text(m.entries()[0].1, k)
}

impl<E: EffectProbe + ?Sized> Tool for UnsafeOnceTool<E> {
    /// The synthetic fixture reports its one spec.
    open spec fn reports(&self, spec: ToolSpec) -> bool {
        &&& is_fixture_identity(spec.identity, "test.unsafe_once"@)
        &&& spec.description@ == "Apply one synthetic observable effect for a key."@
        &&& is_fixture_schema(spec.input_schema, "key"@)
        &&& is_unsafe_once_properties(fixture_properties(spec.input_schema))
    }

    fn spec(&self) -> (r: ToolSpec)
        ensures
            is_fixture_identity(r.identity, "test.unsafe_once"@),
            r.description@ == "Apply one synthetic observable effect for a key."@,
            is_fixture_schema(r.input_schema, "key"@),
            is_unsafe_once_properties(fixture_properties(r.input_schema)),
    {
        let key_schema = JsonValue::object(
            vec![
                member("minLength", JsonValue::Number("1".to_string())),
                member("type", text("string")),
            ],
        );
        let properties = JsonValue::object(vec![member("key", key_schema)]);
        ToolSpec {
            identity: UnsafeOnceTool::<E>::identity(),
            description: "Apply one synthetic observable effect for a key.".to_string(),
            input_schema: JsonValue::object(
                vec![
                    draft_member(),
                    member("additionalProperties", JsonValue::Bool(false)),
                    member("properties", properties),
                    member("required", JsonValue::array(vec![text("key")])),
                    member("type", text("object")),
                ],
            ),
        }
    }

    /// The synthetic effect for a non-empty string `key`, else an error.
    open spec fn classifies(
        &self,
        arguments: JsonValue,
        effect: Result<EffectDescriptor, ToolExecutionError>,
    ) -> bool {
        match spec_required_key(arguments) {
            Some(k) => effect matches Ok(EffectDescriptor::Synthetic { kind, attributes })
                && kind@ == "test.unsafe_once"@ && is_key_object(attributes, k),
            None => effect matches Err(e) && e.code@ == "invalid_arguments"@ && e.message@
                == "test.unsafe_once requires non-empty key"@,
        }
    }

    /// The synthetic effect is never replayed.
    open spec fn replays(&self, arguments: JsonValue, replay: ReplayPolicy) -> bool {
        replay == ReplayPolicy::Never
    }

    fn effect(&self, arguments: &JsonValue) -> (r: Result<EffectDescriptor, ToolExecutionError>)
        ensures
            match spec_required_key(*arguments) {
                Some(k) => r matches Ok(EffectDescriptor::Synthetic { kind, attributes })
                    && kind@ == "test.unsafe_once"@ && is_key_object(attributes, k),
                None => r matches Err(e) && e.code@ == "invalid_arguments"@ && e.message@
                    == "test.unsafe_once requires non-empty key"@,
            },
    {
        let key = match required_key(arguments) {
            Ok(key) => key,
            Err(error) => {
                return Err(error);
            },
        };
        Ok(
            EffectDescriptor::Synthetic {
                kind: "test.unsafe_once".to_string(),
                attributes: JsonValue::object(vec![member("key", text(key.as_str()))]),
            },
        )
    }

    fn replay_policy(&self, arguments: &JsonValue) -> (r: ReplayPolicy)
        ensures
            r == ReplayPolicy::Never,
    {
        ReplayPolicy::Never
    }
}

} // verus!
