//! The preparation seam: one finalized model tool call becomes either an
//! executable disposition or a stable no-effect outcome.
//!
//! The stages run in exactly this order, and a failure short-circuits:
//! resolve, validate, digest, effect, replay, policy. Preparation performs
//! no external effect.

use crate::json::{spec_json_bytes, JsonValue};
use crate::provider::opt_text;
use crate::tools::digest::{arguments_digest, spec_sha256_hex};
use crate::tools::disposition::{ToolPreparationDisposition, ToolPreparationStage};
use crate::tools::error::{resolution_text, validation_text};
use crate::tools::identity::ToolIdentity;
use crate::tools::policy::{PolicyDecision, ToolPolicy, ToolPolicyInput};
use crate::tools::registry::{resolve_outcome, ToolRegistry};
use crate::tools::schema::spec_violations;
use crate::tools::tool::{EffectDescriptor, ReplayPolicy, Tool, ToolExecutionError};
use std::sync::Arc;
use vstd::prelude::*;
use vstd::string::StringExecFns;

verus! {

/// A prepared call and, when it is executable, the resolved executor.
pub struct PreparedToolCall<T: Tool + ?Sized> {
    disposition: ToolPreparationDisposition,
    executor: Option<Arc<T>>,
}

impl<T: Tool + ?Sized> PreparedToolCall<T> {
    /// An executor is held exactly when the call is executable.
    #[verifier::type_invariant]
    spec fn executor_iff_executable(self) -> bool {
        (self.executor is Some) == (self.disposition is Executable)
    }

    pub closed spec fn prepared_disposition(&self) -> ToolPreparationDisposition {
        self.disposition
    }

    pub closed spec fn has_executor(&self) -> bool {
        self.executor is Some
    }

    /// The executor handed on, when the call is executable.
    pub closed spec fn prepared_executor(&self) -> Option<Arc<T>> {
        self.executor
    }

    /// A call that carries no executor.
    pub fn no_effect(disposition: ToolPreparationDisposition) -> (r: PreparedToolCall<T>)
        requires
            disposition is NoEffect,
        ensures
            r.prepared_disposition() == disposition,
            !r.has_executor(),
    {
        PreparedToolCall { disposition, executor: None }
    }

    pub fn disposition(&self) -> (r: &ToolPreparationDisposition)
        ensures
            *r == self.prepared_disposition(),
            self.has_executor() == (r is Executable),
    {
        proof {
            use_type_invariant(self);
        }
        &self.disposition
    }

    pub fn into_disposition(self) -> (r: ToolPreparationDisposition)
        ensures
            r == self.prepared_disposition(),
    {
        self.disposition
    }

    pub fn executor(&self) -> (r: Option<&Arc<T>>)
        ensures
            r is Some == self.has_executor(),
            r matches Some(t) ==> self.prepared_executor() == Some(*t),
            r is Some == (self.prepared_disposition() is Executable),
    {
        proof {
            use_type_invariant(self);
        }
        match &self.executor {
            Some(tool) => Some(tool),
            None => None,
        }
    }
}

/// A no-effect disposition that failed at `stage` before any later stage
/// produced a value.
pub open spec fn early_no_effect(
    d: ToolPreparationDisposition,
    stage: ToolPreparationStage,
    code: Seq<char>,
    message: Seq<char>,
    identity: Option<ToolIdentity>,
) -> bool {
    &&& d matches ToolPreparationDisposition::NoEffect {
        failed_at,
        code: c,
        message: m,
        identity: i,
        arguments_digest: dg,
        effect: e,
        replay: rp,
        policy: p,
    }
    &&& failed_at == stage
    &&& c@ == code
    &&& m@ == message
    &&& i == identity
    &&& dg is None
    &&& e is None
    &&& rp is None
    &&& p is None
}

/// The disposition of a call that resolved and validated, given what the
/// tool's classification and the policy returned.
pub open spec fn classified(
    d: ToolPreparationDisposition,
    identity: ToolIdentity,
    digest: Seq<char>,
    effect: Result<EffectDescriptor, ToolExecutionError>,
    replay: ReplayPolicy,
    decision: PolicyDecision,
) -> bool {
    match effect {
        Err(error) => {
            &&& d matches ToolPreparationDisposition::NoEffect {
                failed_at,
                code,
                message,
                identity: i,
                arguments_digest: dg,
                effect: e,
                replay: rp,
                policy: p,
            }
            &&& failed_at == ToolPreparationStage::Classify
            &&& code@ == "classification_failed"@
            &&& message@ == error.code@ + ": "@ + error.message@
            &&& i == Some(identity)
            &&& opt_text(dg) == Some(digest)
            &&& e is None
            &&& rp is None
            &&& p is None
        },
        Ok(descriptor) => match decision {
            PolicyDecision::Allow => {
                &&& d matches ToolPreparationDisposition::Executable {
                    identity: i,
                    arguments_digest: dg,
                    effect: e,
                    replay: rp,
                    policy: p,
                }
                &&& i == identity
                &&& dg@ == digest
                &&& e == descriptor
                &&& rp == replay
                &&& p == PolicyDecision::Allow
            },
            PolicyDecision::Deny { message: denial, .. } => {
                &&& d matches ToolPreparationDisposition::NoEffect {
                    failed_at,
                    code,
                    message,
                    identity: i,
                    arguments_digest: dg,
                    effect: e,
                    replay: rp,
                    policy: p,
                }
                &&& failed_at == ToolPreparationStage::Policy
                &&& code@ == "policy_denied"@
                &&& message@ == denial@
                &&& i == Some(identity)
                &&& opt_text(dg) == Some(digest)
                &&& e == Some(descriptor)
                &&& rp == Some(replay)
                &&& p == Some(decision)
            },
        },
    }
}

/// What the tool and the policy answered when handed the validated
/// arguments: the tool's classification of them and, when that succeeded,
/// its replay policy and the policy's decision on exactly those values.
pub open spec fn handed<T: Tool + ?Sized, P: ToolPolicy + ?Sized>(
    tool: Arc<T>,
    policy: &P,
    identity: ToolIdentity,
    arguments: JsonValue,
    digest: Seq<char>,
    effect: Result<EffectDescriptor, ToolExecutionError>,
    replay: ReplayPolicy,
    decision: PolicyDecision,
) -> bool {
    &&& tool.classifies(arguments, effect)
    &&& effect matches Ok(descriptor) ==> tool.replays(arguments, replay) && policy.answers(
        identity,
        arguments,
        digest,
        descriptor,
        replay,
        decision,
    )
}

/// Calls `Arc::clone`, which makes another pointer to the same allocation:
/// the value pointed to is the same.
#[verifier::external_body]
fn share<T: ?Sized>(a: &Arc<T>) -> (r: Arc<T>)
    ensures
        r == *a,
{
    Arc::clone(a)
}

/// The first configured pin whose id is `name`, from index `i` on.
pub open spec fn pin_named_from(pins: Seq<ToolIdentity>, name: Seq<char>, i: int) -> Option<int>
    decreases pins.len() - i,
{
    if i < 0 || i >= pins.len() {
        None
    } else if pins[i].id@ == name {
        Some(i)
    } else {
        pin_named_from(pins, name, i + 1)
    }
}

pub open spec fn pin_named(pins: Seq<ToolIdentity>, name: Seq<char>) -> Option<int> {
    pin_named_from(pins, name, 0)
}

/// The disposition built from the classification and policy results:
/// classification failure, policy denial, or an executable call.
pub fn settle_preparation(
    identity: ToolIdentity,
    digest: String,
    effect: Result<EffectDescriptor, ToolExecutionError>,
    replay: ReplayPolicy,
    decision: PolicyDecision,
) -> (r: ToolPreparationDisposition)
    ensures
        classified(r, identity, digest@, effect, replay, decision),
{
    match effect {
        Err(error) => ToolPreparationDisposition::NoEffect {
            failed_at: ToolPreparationStage::Classify,
            code: "classification_failed".to_string(),
            message: error.to_text(),
            identity: Some(identity),
            arguments_digest: Some(digest),
            effect: None,
            replay: None,
            policy: None,
        },
        Ok(descriptor) => match decision {
            PolicyDecision::Allow => ToolPreparationDisposition::Executable {
                identity,
                arguments_digest: digest,
                effect: descriptor,
                replay,
                policy: PolicyDecision::Allow,
            },
            PolicyDecision::Deny { code, message } => ToolPreparationDisposition::NoEffect {
                failed_at: ToolPreparationStage::Policy,
                code: "policy_denied".to_string(),
                message: message.clone(),
                identity: Some(identity),
                arguments_digest: Some(digest),
                effect: Some(descriptor),
                replay: Some(replay),
                policy: Some(PolicyDecision::Deny { code, message }),
            },
        },
    }
}

/// Prepares one finalized model tool call: only a configured pin is
/// addressable, at its exact version; the parsed arguments are validated as
/// they are; the digest is taken only of arguments that validated; the tool
/// classifies the effect, then the replay policy; the policy is consulted
/// last. The tool is never executed here.
pub fn prepare_tool_call<T: Tool + ?Sized, P: ToolPolicy + ?Sized>(
    registry: &ToolRegistry<T>,
    pins: &[ToolIdentity],
    policy: &P,
    requested_tool_name: &str,
    arguments: &JsonValue,
) -> (r: PreparedToolCall<T>)
    ensures
        r.has_executor() == (r.prepared_disposition() is Executable),
        r.has_executor() ==> (pin_named(pins@, requested_tool_name@) matches Some(k)
            && resolve_outcome(registry@, pins@[k]) matches Ok(i)
            && r.prepared_executor() == Some(registry.tools()[i])),
        match pin_named(pins@, requested_tool_name@) {
            None => early_no_effect(
                r.prepared_disposition(),
                ToolPreparationStage::Resolve,
                "tool_not_found"@,
                "no configured tool named "@ + requested_tool_name@,
                None,
            ),
            Some(k) => match resolve_outcome(registry@, pins@[k]) {
                Err(e) => early_no_effect(
                    r.prepared_disposition(),
                    ToolPreparationStage::Resolve,
                    "tool_not_found"@,
                    resolution_text(e),
                    None,
                ),
                Ok(i) => {
                    let spec = registry@[i];
                    let found = spec_violations(spec.input_schema, *arguments);
                    if found.len() > 0 {
                        early_no_effect(
                            r.prepared_disposition(),
                            ToolPreparationStage::Validate,
                            "invalid_arguments"@,
                            validation_text(found.len()),
                            Some(spec.identity),
                        )
                    } else {
                        let digest = spec_sha256_hex(spec_json_bytes(*arguments));
                        exists|
                            effect: Result<EffectDescriptor, ToolExecutionError>,
                            replay: ReplayPolicy,
                            decision: PolicyDecision,
                        |
                            handed(
                                registry.tools()[i],
                                policy,
                                spec.identity,
                                *arguments,
                                digest,
                                effect,
                                replay,
                                decision,
                            ) && classified(
                                r.prepared_disposition(),
                                spec.identity,
                                digest,
                                effect,
                                replay,
                                decision,
                            )
                    }
                },
            },
        },
{
    // Resolve: only a configured pin is addressable.
    let mut k: usize = 0;
    while k < pins.len()
        invariant
            0 <= k <= pins@.len(),
            pin_named(pins@, requested_tool_name@) == pin_named_from(
                pins@,
                requested_tool_name@,
                k as int,
            ),
        ensures
            0 <= k <= pins@.len(),
            pin_named(pins@, requested_tool_name@) == pin_named_from(
                pins@,
                requested_tool_name@,
                k as int,
            ),
            k < pins@.len() ==> pins@[k as int].id@ == requested_tool_name@,
        decreases pins.len() - k,
    {
        if crate::text::str_equal(pins[k].id.as_str(), requested_tool_name) {
            break;
        }
        k = k + 1;
    }
    if k == pins.len() {
        let mut message = "no configured tool named ".to_string();
        message.append(requested_tool_name);
        return PreparedToolCall::no_effect(
            ToolPreparationDisposition::NoEffect {
                failed_at: ToolPreparationStage::Resolve,
                code: "tool_not_found".to_string(),
                message,
                identity: None,
                arguments_digest: None,
                effect: None,
                replay: None,
                policy: None,
            },
        );
    }
    let registered = match registry.resolve(&pins[k]) {
        Ok(registered) => registered,
        Err(error) => {
            return PreparedToolCall::no_effect(
                ToolPreparationDisposition::NoEffect {
                    failed_at: ToolPreparationStage::Resolve,
                    code: "tool_not_found".to_string(),
                    message: error.to_text(),
                    identity: None,
                    arguments_digest: None,
                    effect: None,
                    replay: None,
                    policy: None,
                },
            );
        },
    };
    let identity = registered.spec().identity.clone();

    // Validate: the authoritative parsed value, never a reparse.
    let schema = registered.schema();
    if let Err(error) = schema.validate(arguments) {
        proof {
            let keys = crate::tools::schema::violation_keys(error.violations@);
            let found = spec_violations(schema@, *arguments);
            vstd::seq_lib::to_multiset_len(keys);
            vstd::seq_lib::to_multiset_len(found);
            assert(keys.len() == error.violations@.len());
            assert(error.violations@.len() == found.len());
        }
        return PreparedToolCall::no_effect(
            ToolPreparationDisposition::NoEffect {
                failed_at: ToolPreparationStage::Validate,
                code: "invalid_arguments".to_string(),
                message: error.to_text(),
                identity: Some(identity),
                arguments_digest: None,
                effect: None,
                replay: None,
                policy: None,
            },
        );
    }

    // Digest: only of arguments that already validated.
    let digest = arguments_digest(arguments);

    // Classify: the effect first, then the replay policy.
    let tool = registered.tool();
    let effect = tool.effect(arguments);
    let effect = match effect {
        Ok(descriptor) => descriptor,
        Err(error) => {
            let ghost failed: Result<EffectDescriptor, ToolExecutionError> = Err(error);
            let ghost pinned = identity;
            let ghost digest_text = digest@;
            let d = settle_preparation(
                identity,
                digest,
                Err(error),
                ReplayPolicy::Safe,
                PolicyDecision::Allow,
            );
            assert(handed(
                *tool,
                policy,
                pinned,
                *arguments,
                digest_text,
                failed,
                ReplayPolicy::Safe,
                PolicyDecision::Allow,
            ) && classified(d, pinned, digest_text, failed, ReplayPolicy::Safe, PolicyDecision::Allow));
            return PreparedToolCall::no_effect(d);
        },
    };
    let replay = tool.replay_policy(arguments);

    // Policy: exactly once, with the classified values only.
    let decision = policy.evaluate(
        &ToolPolicyInput {
            identity: &identity,
            arguments,
            arguments_digest: digest.as_str(),
            effect: &effect,
            replay,
        },
    );
    let ghost chosen_effect: Result<EffectDescriptor, ToolExecutionError> = Ok(effect);
    let ghost chosen_decision = decision;
    let allowed = match decision {
        PolicyDecision::Allow => true,
        _ => false,
    };
    let ghost pinned = identity;
    let ghost digest_text = digest@;
    let d = settle_preparation(identity, digest, Ok(effect), replay, decision);
    assert(handed(
        *tool,
        policy,
        pinned,
        *arguments,
        digest_text,
        chosen_effect,
        replay,
        chosen_decision,
    ) && classified(d, pinned, digest_text, chosen_effect, replay, chosen_decision));
    if allowed {
        let executor = share(tool);
        PreparedToolCall { disposition: d, executor: Some(executor) }
    } else {
        PreparedToolCall::no_effect(d)
    }
}

} // verus!
