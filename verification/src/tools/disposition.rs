//! The single preparation taxonomy that durable Agent records embed.

use crate::provider::{clone_opt_text, opt_text};
use crate::tools::identity::{same_identity, same_opt_text, ToolIdentity};
use crate::tools::policy::{same_decision, PolicyDecision};
use crate::tools::tool::{same_effect, EffectDescriptor, ReplayPolicy};
use vstd::prelude::*;

verus! {

/// The preparation stage that failed.
#[derive(Clone, Copy, Debug, PartialEq, Eq, Structural)]
pub enum ToolPreparationStage {
    Resolve,
    Validate,
    Classify,
    Policy,
}

/// The outcome of preparing one finalized model tool call.
#[allow(inconsistent_fields)]
#[derive(Debug, PartialEq)]
pub enum ToolPreparationDisposition {
    Executable {
        identity: ToolIdentity,
        arguments_digest: String,
        effect: EffectDescriptor,
        replay: ReplayPolicy,
        /// Always `Allow` in this variant.
        policy: PolicyDecision,
    },
    NoEffect {
        failed_at: ToolPreparationStage,
        code: String,
        message: String,
        /// Fields stay `None` when the failing stage ran before them.
        identity: Option<ToolIdentity>,
        arguments_digest: Option<String>,
        effect: Option<EffectDescriptor>,
        replay: Option<ReplayPolicy>,
        policy: Option<PolicyDecision>,
    },
}

pub open spec fn same_opt_identity(a: Option<ToolIdentity>, b: Option<ToolIdentity>) -> bool {
    match (a, b) {
        (None, None) => true,
        (Some(x), Some(y)) => same_identity(x, y),
        _ => false,
    }
}

pub open spec fn same_opt_effect(a: Option<EffectDescriptor>, b: Option<EffectDescriptor>) -> bool {
    match (a, b) {
        (None, None) => true,
        (Some(x), Some(y)) => same_effect(x, y),
        _ => false,
    }
}

pub open spec fn same_opt_decision(a: Option<PolicyDecision>, b: Option<PolicyDecision>) -> bool {
    match (a, b) {
        (None, None) => true,
        (Some(x), Some(y)) => same_decision(x, y),
        _ => false,
    }
}

/// Two dispositions record the same preparation.
pub open spec fn same_disposition(a: ToolPreparationDisposition, b: ToolPreparationDisposition) -> bool {
    match (a, b) {
        (
            ToolPreparationDisposition::Executable {
                identity: i1,
                arguments_digest: d1,
                effect: e1,
                replay: r1,
                policy: p1,
            },
            ToolPreparationDisposition::Executable {
                identity: i2,
                arguments_digest: d2,
                effect: e2,
                replay: r2,
                policy: p2,
            },
        ) => same_identity(i1, i2) && d1@ == d2@ && same_effect(e1, e2) && r1 == r2
            && same_decision(p1, p2),
        (
            ToolPreparationDisposition::NoEffect {
                failed_at: f1,
                code: c1,
                message: m1,
                identity: i1,
                arguments_digest: d1,
                effect: e1,
                replay: r1,
                policy: p1,
            },
            ToolPreparationDisposition::NoEffect {
                failed_at: f2,
                code: c2,
                message: m2,
                identity: i2,
                arguments_digest: d2,
                effect: e2,
                replay: r2,
                policy: p2,
            },
        ) => f1 == f2 && c1@ == c2@ && m1@ == m2@ && same_opt_identity(i1, i2) && opt_text(d1)
            == opt_text(d2) && same_opt_effect(e1, e2) && r1 == r2 && same_opt_decision(p1, p2),
        _ => false,
    }
}

fn same_opt_identity_exec(a: &Option<ToolIdentity>, b: &Option<ToolIdentity>) -> (r: bool)
    ensures
        r == same_opt_identity(*a, *b),
{
    match (a, b) {
        (None, None) => true,
        (Some(x), Some(y)) => x.same_as(y),
        _ => false,
    }
}

fn same_opt_effect_exec(a: &Option<EffectDescriptor>, b: &Option<EffectDescriptor>) -> (r: bool)
    ensures
        r == same_opt_effect(*a, *b),
{
    match (a, b) {
        (None, None) => true,
        (Some(x), Some(y)) => x.same_as(y),
        _ => false,
    }
}

fn same_opt_decision_exec(a: &Option<PolicyDecision>, b: &Option<PolicyDecision>) -> (r: bool)
    ensures
        r == same_opt_decision(*a, *b),
{
    match (a, b) {
        (None, None) => true,
        (Some(x), Some(y)) => x.same_as(y),
        _ => false,
    }
}

fn same_opt_replay(a: &Option<ReplayPolicy>, b: &Option<ReplayPolicy>) -> (r: bool)
    ensures
        r == (*a == *b),
{
    match (a, b) {
        (None, None) => true,
        (Some(x), Some(y)) => *x == *y,
        _ => false,
    }
}

impl ToolPreparationDisposition {
    /// Whether two dispositions record the same preparation.
    pub fn same_as(&self, other: &ToolPreparationDisposition) -> (r: bool)
        ensures
            r == same_disposition(*self, *other),
    {
        match (self, other) {
            (
                ToolPreparationDisposition::Executable {
                    identity: i1,
                    arguments_digest: d1,
                    effect: e1,
                    replay: r1,
                    policy: p1,
                },
                ToolPreparationDisposition::Executable {
                    identity: i2,
                    arguments_digest: d2,
                    effect: e2,
                    replay: r2,
                    policy: p2,
                },
            ) => i1.same_as(i2) && *d1 == *d2 && e1.same_as(e2) && *r1 == *r2 && p1.same_as(p2),
            (
                ToolPreparationDisposition::NoEffect {
                    failed_at: f1,
                    code: c1,
                    message: m1,
                    identity: i1,
                    arguments_digest: d1,
                    effect: e1,
                    replay: r1,
                    policy: p1,
                },
                ToolPreparationDisposition::NoEffect {
                    failed_at: f2,
                    code: c2,
                    message: m2,
                    identity: i2,
                    arguments_digest: d2,
                    effect: e2,
                    replay: r2,
                    policy: p2,
                },
            ) => *f1 == *f2 && *c1 == *c2 && *m1 == *m2 && same_opt_identity_exec(i1, i2)
                && same_opt_text(d1, d2) && same_opt_effect_exec(e1, e2) && same_opt_replay(r1, r2)
                && same_opt_decision_exec(p1, p2),
            _ => false,
        }
    }
}

fn clone_opt_identity(a: &Option<ToolIdentity>) -> (r: Option<ToolIdentity>)
    ensures
        r == *a,
{
    match a {
        Some(x) => Some(x.clone()),
        None => None,
    }
}

fn clone_opt_effect(a: &Option<EffectDescriptor>) -> (r: Option<EffectDescriptor>)
    ensures
        r == *a,
{
    match a {
        Some(x) => Some(x.clone()),
        None => None,
    }
}

fn clone_opt_decision(a: &Option<PolicyDecision>) -> (r: Option<PolicyDecision>)
    ensures
        r == *a,
{
    match a {
        Some(x) => Some(x.clone()),
        None => None,
    }
}

impl Clone for ToolPreparationDisposition {
    fn clone(&self) -> (r: Self)
        ensures
            r == *self,
    {
        match self {
            ToolPreparationDisposition::Executable {
                identity,
                arguments_digest,
                effect,
                replay,
                policy,
            } => ToolPreparationDisposition::Executable {
                identity: identity.clone(),
                arguments_digest: arguments_digest.clone(),
                effect: effect.clone(),
                replay: *replay,
                policy: policy.clone(),
            },
            ToolPreparationDisposition::NoEffect {
                failed_at,
                code,
                message,
                identity,
                arguments_digest,
                effect,
                replay,
                policy,
            } => ToolPreparationDisposition::NoEffect {
                failed_at: *failed_at,
                code: code.clone(),
                message: message.clone(),
                identity: clone_opt_identity(identity),
                arguments_digest: clone_opt_text(arguments_digest),
                effect: clone_opt_effect(effect),
                replay: *replay,
                policy: clone_opt_decision(policy),
            },
        }
    }
}

} // verus!
