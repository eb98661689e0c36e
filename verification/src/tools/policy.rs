//! The policy seam: what a policy may inspect and what it decides.

use crate::json::JsonValue;
use crate::tools::identity::ToolIdentity;
use crate::tools::tool::{EffectDescriptor, ReplayPolicy};
use vstd::prelude::*;

verus! {

/// The decision a policy returns for one prepared call.
#[derive(Debug, PartialEq, Eq)]
pub enum PolicyDecision {
    Allow,
    Deny { code: String, message: String },
}

impl Clone for PolicyDecision {
    fn clone(&self) -> (r: Self)
        ensures
            r == *self,
    {
        match self {
            PolicyDecision::Allow => PolicyDecision::Allow,
            PolicyDecision::Deny { code, message } => PolicyDecision::Deny {
                code: code.clone(),
                message: message.clone(),
            },
        }
    }
}

/// Two decisions say the same.
pub open spec fn same_decision(a: PolicyDecision, b: PolicyDecision) -> bool {
    match (a, b) {
        (PolicyDecision::Allow, PolicyDecision::Allow) => true,
        (
            PolicyDecision::Deny { code: c, message: m },
            PolicyDecision::Deny { code: d, message: n },
        ) => c@ == d@ && m@ == n@,
        _ => false,
    }
}

impl PolicyDecision {
    pub fn same_as(&self, other: &PolicyDecision) -> (r: bool)
        ensures
            r == same_decision(*self, *other),
    {
        match (self, other) {
            (PolicyDecision::Allow, PolicyDecision::Allow) => true,
            (
                PolicyDecision::Deny { code: c, message: m },
                PolicyDecision::Deny { code: d, message: n },
            ) => *c == *d && *m == *n,
            _ => false,
        }
    }
}

/// What a policy may inspect. `effect` and `replay` are not optional, so no
/// input exists before classification has run.
pub struct ToolPolicyInput<'a> {
    pub identity: &'a ToolIdentity,
    pub arguments: &'a JsonValue,
    pub arguments_digest: &'a str,
    pub effect: &'a EffectDescriptor,
    pub replay: ReplayPolicy,
}

/// A policy, implemented by the library's users.
pub trait ToolPolicy {
    /// Whether the policy may answer `decision` for a call of `identity`
    /// with these arguments, digest and classification. An implementor
    /// states its own relation; by default every answer is allowed.
    open spec fn answers(
        &self,
        identity: ToolIdentity,
        arguments: JsonValue,
        digest: Seq<char>,
        effect: EffectDescriptor,
        replay: ReplayPolicy,
        decision: PolicyDecision,
    ) -> bool {
        true
    }

    fn evaluate(&self, input: &ToolPolicyInput) -> (r: PolicyDecision)
        ensures
            self.answers(
                *input.identity,
                *input.arguments,
                input.arguments_digest@,
                *input.effect,
                input.replay,
                r,
            ),
    ;
}

} // verus!
