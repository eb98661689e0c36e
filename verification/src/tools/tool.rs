//! What a tool is: its effect and replay classification and its outcomes.

use crate::json::{same_json, JsonValue};
use crate::tools::identity::{ToolIdentity, ToolSpec};
use vstd::prelude::*;
use vstd::string::StringExecFns;

verus! {

/// What a tool does when it runs.
#[derive(Debug, PartialEq)]
pub enum EffectDescriptor {
    Pure { kind: String },
    Synthetic { kind: String, attributes: JsonValue },
}

impl Clone for EffectDescriptor {
    fn clone(&self) -> (r: Self)
        ensures
            r == *self,
    {
        match self {
            EffectDescriptor::Pure { kind } => EffectDescriptor::Pure { kind: kind.clone() },
            EffectDescriptor::Synthetic { kind, attributes } => EffectDescriptor::Synthetic {
                kind: kind.clone(),
                attributes: attributes.clone(),
            },
        }
    }
}

/// Two descriptors describe the same effect.
pub open spec fn same_effect(a: EffectDescriptor, b: EffectDescriptor) -> bool {
    match (a, b) {
        (EffectDescriptor::Pure { kind: x }, EffectDescriptor::Pure { kind: y }) => x@ == y@,
        (
            EffectDescriptor::Synthetic { kind: x, attributes: p },
            EffectDescriptor::Synthetic { kind: y, attributes: q },
        ) => x@ == y@ && same_json(p, q),
        _ => false,
    }
}

impl EffectDescriptor {
    pub fn same_as(&self, other: &EffectDescriptor) -> (r: bool)
        ensures
            r == same_effect(*self, *other),
    {
        match (self, other) {
            (EffectDescriptor::Pure { kind: x }, EffectDescriptor::Pure { kind: y }) => *x == *y,
            (
                EffectDescriptor::Synthetic { kind: x, attributes: p },
                EffectDescriptor::Synthetic { kind: y, attributes: q },
            ) => *x == *y && p.same_as(q),
            _ => false,
        }
    }
}

/// Whether an interrupted attempt may be retried.
#[derive(Clone, Copy, Debug, PartialEq, Eq, Structural)]
pub enum ReplayPolicy {
    Safe,
    Never,
}

/// Arguments handed to one tool invocation.
#[derive(Debug, PartialEq)]
pub struct ToolRequest {
    pub identity: ToolIdentity,
    pub arguments: JsonValue,
}

#[derive(Debug, PartialEq)]
pub struct ToolOutput {
    pub content: JsonValue,
}

/// An ordinary tool failure. It never encodes cancellation.
#[derive(Debug, PartialEq, Eq)]
pub struct ToolExecutionError {
    pub code: String,
    pub message: String,
}

impl ToolExecutionError {
    pub fn new(code: &str, message: &str) -> (r: ToolExecutionError)
        ensures
            r.code@ == code@,
            r.message@ == message@,
    {
        ToolExecutionError { code: code.to_string(), message: message.to_string() }
    }

    /// The error's text: its code, a colon and its message.
    pub fn to_text(&self) -> (r: String)
        ensures
            r@ == self.code@ + ": "@ + self.message@,
    {
        let mut text = self.code.clone();
        text.append(": ");
        text.append(self.message.as_str());
        text
    }
}

/// The three normal outcomes of one tool invocation. Cancellation is kept
/// distinct from an ordinary error.
#[derive(Debug, PartialEq)]
pub enum ToolInvocationOutcome {
    Output(ToolOutput),
    OrdinaryError(ToolExecutionError),
    Cancelled,
}

/// A tool. `spec` is read once, when the registry is built; `effect` and
/// `replay_policy` classify one set of validated arguments. Execution is not
/// part of this seam.
pub trait Tool {
    /// Whether the tool may report `spec` as its own. An implementor states
    /// its own relation; by default every spec is allowed.
    open spec fn reports(&self, spec: ToolSpec) -> bool {
        true
    }

    fn spec(&self) -> (r: ToolSpec)
        ensures
            self.reports(r),
    ;

    /// Whether the tool may classify `arguments` as `effect`. An
    /// implementor states its own relation; by default every answer is
    /// allowed.
    open spec fn classifies(
        &self,
        arguments: JsonValue,
        effect: Result<EffectDescriptor, ToolExecutionError>,
    ) -> bool {
        true
    }

    /// Whether the tool may answer `replay` for `arguments`. An implementor
    /// states its own relation; by default every answer is allowed.
    open spec fn replays(&self, arguments: JsonValue, replay: ReplayPolicy) -> bool {
        true
    }

    fn effect(&self, arguments: &JsonValue) -> (r: Result<EffectDescriptor, ToolExecutionError>)
        ensures
            self.classifies(*arguments, r),
    ;

    fn replay_policy(&self, arguments: &JsonValue) -> (r: ReplayPolicy)
        ensures
            self.replays(*arguments, r),
    ;
}

} // verus!
