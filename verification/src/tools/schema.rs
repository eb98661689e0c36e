//! The offline JSON Schema profile of tool inputs (Draft 2020-12).
//!
//! References must be self-contained fragments; they are checked before a
//! schema reaches the validator, so no retrieval is ever attempted.

use crate::json::{to_serde, JsonList, JsonMembers, JsonValue};
use crate::provider::opt_text;
use crate::tools::error::{
    ArgumentValidationError, ArgumentViolation, DefinitionErrorView, ToolDefinitionError,
};
use vstd::multiset::Multiset;
use vstd::prelude::*;
use vstd::string::StringExecFns;

verus! {

/// Calls `str::starts_with` with the char `#`.
#[verifier::external_body]
fn starts_with_hash(text: &str) -> (r: bool)
    ensures
        r == (text@.len() > 0 && text@[0] == '#'),
{
    text.starts_with('#')
}

/// What member `key` of an object says of references.
pub open spec fn key_fault(members: JsonMembers, key: Seq<char>) -> Option<DefinitionErrorView> {
    match members.lookup(key) {
        Some(JsonValue::String(reference)) => if reference@.len() > 0 && reference@[0] == '#' {
            None
        } else {
            Some(DefinitionErrorView::ExternalReference { reference: reference@ })
        },
        Some(_) => Some(DefinitionErrorView::InvalidSchema { message: key + " must be a string"@ }),
        None => None,
    }
}

/// The first reference in the schema that is not a self-contained fragment
/// (or is not a string), looking at `$ref`, then `$dynamicRef`, then the
/// member values in order, depth first. `$id` is not inspected.
pub open spec fn reference_fault(v: JsonValue) -> Option<DefinitionErrorView>
    decreases v,
{
    match v {
        JsonValue::Object(members) => match key_fault(members, "$ref"@) {
            Some(e) => Some(e),
            None => match key_fault(members, "$dynamicRef"@) {
                Some(e) => Some(e),
                None => members_fault(members),
            },
        },
        JsonValue::Array(items) => items_fault(items),
        _ => None,
    }
}

pub open spec fn members_fault(m: JsonMembers) -> Option<DefinitionErrorView>
    decreases m,
{
    match m {
        JsonMembers::Nil => None,
        JsonMembers::Cons(_, v, rest) => match reference_fault(*v) {
            Some(e) => Some(e),
            None => members_fault(*rest),
        },
    }
}

pub open spec fn items_fault(l: JsonList) -> Option<DefinitionErrorView>
    decreases l,
{
    match l {
        JsonList::Nil => None,
        JsonList::Cons(v, rest) => match reference_fault(*v) {
            Some(e) => Some(e),
            None => items_fault(*rest),
        },
    }
}

fn check_key(members: &JsonMembers, key: &str) -> (r: Result<(), ToolDefinitionError>)
    ensures
        r is Ok <==> key_fault(*members, key@) is None,
        r matches Err(e) ==> key_fault(*members, key@) == Some(e@),
{
    match members.get(key) {
        Some(JsonValue::String(reference)) => {
            if starts_with_hash(reference.as_str()) {
                Ok(())
            } else {
                Err(ToolDefinitionError::ExternalReference { reference: reference.clone() })
            }
        },
        Some(_) => {
            let mut message = key.to_string();
            message.append(" must be a string");
            Err(ToolDefinitionError::InvalidSchema { message })
        },
        None => Ok(()),
    }
}

/// Rejects `$ref` and `$dynamicRef` values that are not self-contained
/// fragments, anywhere in the schema.
pub fn reject_non_fragment_references(schema: &JsonValue) -> (r: Result<(), ToolDefinitionError>)
    ensures
        r is Ok <==> reference_fault(*schema) is None,
        r matches Err(e) ==> reference_fault(*schema) == Some(e@),
    decreases schema,
{
    match schema {
        JsonValue::Object(members) => {
            if let Err(e) = check_key(members, "$ref") {
                return Err(e);
            }
            if let Err(e) = check_key(members, "$dynamicRef") {
                return Err(e);
            }
            check_members(members)
        },
        JsonValue::Array(items) => check_items(items),
        _ => Ok(()),
    }
}

fn check_members(m: &JsonMembers) -> (r: Result<(), ToolDefinitionError>)
    ensures
        r is Ok <==> members_fault(*m) is None,
        r matches Err(e) ==> members_fault(*m) == Some(e@),
    decreases m,
{
    match m {
        JsonMembers::Nil => Ok(()),
        JsonMembers::Cons(_, v, rest) => {
            if let Err(e) = reject_non_fragment_references(&**v) {
                return Err(e);
            }
            check_members(&**rest)
        },
    }
}

fn check_items(l: &JsonList) -> (r: Result<(), ToolDefinitionError>)
    ensures
        r is Ok <==> items_fault(*l) is None,
        r matches Err(e) ==> items_fault(*l) == Some(e@),
    decreases l,
{
    match l {
        JsonList::Nil => Ok(()),
        JsonList::Cons(v, rest) => {
            if let Err(e) = reject_non_fragment_references(&**v) {
                return Err(e);
            }
            check_items(&**rest)
        },
    }
}

/// Strict lexicographic order on texts, char by char.
pub open spec fn text_before(a: Seq<char>, b: Seq<char>) -> bool
    decreases a.len(),
{
    if a.len() == 0 {
        b.len() > 0
    } else if b.len() == 0 {
        false
    } else if a[0] != b[0] {
        (a[0] as u32) < (b[0] as u32)
    } else {
        text_before(a.drop_first(), b.drop_first())
    }
}

/// Calls `<str as PartialOrd>::lt`. Strings order by their UTF-8 bytes, and
/// UTF-8 keeps the order of code points, so this is the order of chars.
#[verifier::external_body]
fn text_lt(a: &str, b: &str) -> (r: bool)
    ensures
        r == text_before(a@, b@),
{
    a < b
}

proof fn lemma_text_before_irreflexive(a: Seq<char>)
    ensures
        !text_before(a, a),
    decreases a.len(),
{
    if a.len() > 0 {
        lemma_text_before_irreflexive(a.drop_first());
    }
}

proof fn lemma_text_before_transitive(a: Seq<char>, b: Seq<char>, c: Seq<char>)
    requires
        text_before(a, b),
        text_before(b, c),
    ensures
        text_before(a, c),
    decreases a.len(),
{
    if a.len() > 0 && b.len() > 0 && c.len() > 0 && a[0] == b[0] && b[0] == c[0] {
        lemma_text_before_transitive(a.drop_first(), b.drop_first(), c.drop_first());
    }
}

/// A violation's sort key: its instance path, then its message.
pub type ViolationKey = (Seq<char>, Seq<char>);

/// Violations are reported ordered by instance path, then by message.
pub open spec fn key_before(x: ViolationKey, y: ViolationKey) -> bool {
    text_before(x.0, y.0) || (x.0 == y.0 && text_before(x.1, y.1))
}

pub open spec fn keys_sorted(s: Seq<ViolationKey>) -> bool {
    forall|i: int, j: int| 0 <= i < j < s.len() ==> !key_before(#[trigger] s[j], #[trigger] s[i])
}

/// The sort keys of a list of violations.
pub open spec fn violation_keys(s: Seq<ArgumentViolation>) -> Seq<ViolationKey> {
    s.map_values(|v: ArgumentViolation| (v.instance_path@, v.message@))
}

proof fn lemma_key_before_irreflexive(x: ViolationKey)
    ensures
        !key_before(x, x),
{
    lemma_text_before_irreflexive(x.0);
    lemma_text_before_irreflexive(x.1);
}

proof fn lemma_key_before_transitive(x: ViolationKey, y: ViolationKey, z: ViolationKey)
    requires
        key_before(x, y),
        key_before(y, z),
    ensures
        key_before(x, z),
{
    if text_before(x.0, y.0) && text_before(y.0, z.0) {
        lemma_text_before_transitive(x.0, y.0, z.0);
    } else if text_before(x.1, y.1) && text_before(y.1, z.1) && x.0 == y.0 && y.0 == z.0 {
        lemma_text_before_transitive(x.1, y.1, z.1);
    }
}

/// Inserting a key before the first key it precedes keeps the keys sorted.
proof fn lemma_insert_keeps_sorted(s: Seq<ViolationKey>, p: int, x: ViolationKey)
    requires
        keys_sorted(s),
        0 <= p <= s.len(),
        forall|k: int| 0 <= k < p ==> !key_before(x, #[trigger] s[k]),
        p < s.len() ==> key_before(x, s[p]),
    ensures
        keys_sorted(s.insert(p, x)),
{
    let t = s.insert(p, x);
    assert forall|i: int, j: int| 0 <= i < j < t.len() implies !key_before(
        #[trigger] t[j],
        #[trigger] t[i],
    ) by {
        if i == p {
            // t[j] == s[j - 1] with j - 1 >= p
            if key_before(s[j - 1], x) {
                lemma_key_before_transitive(s[j - 1], x, s[p]);
                if j - 1 == p {
                    lemma_key_before_irreflexive(s[p]);
                } else {
                    assert(!key_before(s[j - 1], s[p]));
                }
            }
        } else if j == p {
            assert(t[i] == s[i]);
        } else {
            let si = if i < p { i } else { i - 1 };
            let sj = if j < p { j } else { j - 1 };
            assert(t[i] == s[si]);
            assert(t[j] == s[sj]);
            assert(!key_before(s[sj], s[si]));
        }
    }
}

/// The violations in key order.
fn sort_violations(v: Vec<ArgumentViolation>) -> (r: Vec<ArgumentViolation>)
    ensures
        violation_keys(r@).to_multiset() == violation_keys(v@).to_multiset(),
        keys_sorted(violation_keys(r@)),
{
    let ghost original = violation_keys(v@);
    let mut rest = v;
    let mut out: Vec<ArgumentViolation> = Vec::new();
    proof {
        broadcast use vstd::seq_lib::group_to_multiset_ensures, vstd::multiset::group_multiset_axioms;

        assert(violation_keys(out@) =~= Seq::<ViolationKey>::empty());
        assert(violation_keys(out@).to_multiset() =~= Multiset::<ViolationKey>::empty());
    }
    while rest.len() > 0
        invariant
            violation_keys(out@).to_multiset().add(violation_keys(rest@).to_multiset())
                == original.to_multiset(),
            keys_sorted(violation_keys(out@)),
        decreases rest.len(),
    {
        let ghost before_rest = rest@;
        let x = rest.pop().unwrap();
        let ghost kx: ViolationKey = (x.instance_path@, x.message@);
        proof {
            assert(violation_keys(before_rest) =~= violation_keys(rest@).push(kx));
            vstd::seq_lib::to_multiset_build(violation_keys(rest@), kx);
        }
        let mut p: usize = 0;
        while p < out.len()
            invariant
                0 <= p <= out@.len(),
                kx == (x.instance_path@, x.message@),
                forall|k: int| 0 <= k < p ==> !key_before(kx, #[trigger] violation_keys(out@)[k]),
        ensures
            0 <= p <= out@.len(),
            forall|k: int| 0 <= k < p ==> !key_before(kx, #[trigger] violation_keys(out@)[k]),
            p < out@.len() ==> key_before(kx, violation_keys(out@)[p as int]),
        decreases out.len() - p,
        {
            let y = &out[p];
            let x_first = text_lt(x.instance_path.as_str(), y.instance_path.as_str()) || (
            x.instance_path == y.instance_path && text_lt(x.message.as_str(), y.message.as_str()));
            assert(violation_keys(out@)[p as int] == (y.instance_path@, y.message@));
            if x_first {
                break;
            }
            p = p + 1;
        }
        let ghost keys_before = violation_keys(out@);
        proof {
            broadcast use vstd::multiset::group_multiset_axioms;

            lemma_insert_keeps_sorted(keys_before, p as int, kx);
            vstd::seq_lib::to_multiset_insert(keys_before, p as int, kx);
        }
        out.insert(p, x);
        proof {
            assert(violation_keys(out@) =~= keys_before.insert(p as int, kx));
        }
    }
    proof {
        broadcast use vstd::seq_lib::group_to_multiset_ensures, vstd::multiset::group_multiset_axioms;

        assert(violation_keys(rest@) =~= Seq::<ViolationKey>::empty());
        assert(violation_keys(rest@).to_multiset() =~= Multiset::<ViolationKey>::empty());
    }
    out
}

/// The message of the error the Draft 2020-12 validator builder reports for
/// the schema, or nothing when the schema compiles.
pub uninterp spec fn spec_compile_error(schema: JsonValue) -> Option<Seq<char>>;

/// Calls `jsonschema::options().with_draft(Draft::Draft202012).build` on the
/// schema converted one for one, keeping only the error's text. The contract
/// claims that the outcome is a function of the schema.
#[verifier::external_body]
fn schema_build_error(schema: &JsonValue) -> (r: Option<String>)
    ensures
        opt_text(r) == spec_compile_error(*schema),
{
    match jsonschema::options().with_draft(jsonschema::Draft::Draft202012).build(&to_serde(schema)) {
        Ok(_) => None,
        Err(error) => Some(error.to_string()),
    }
}

/// The violations, as (instance path, message), that the validator built
/// from the schema reports for the instance, in the order it reports them;
/// none when the schema does not compile.
pub uninterp spec fn spec_violations(schema: JsonValue, instance: JsonValue) -> Seq<ViolationKey>;

/// Builds the Draft 2020-12 validator for the schema and calls `iter_errors`
/// on the instance, taking each error's `instance_path()` and text. The
/// contract claims that the result is a function of schema and instance.
#[verifier::external_body]
fn schema_violations(schema: &JsonValue, instance: &JsonValue) -> (r: Vec<ArgumentViolation>)
    ensures
        violation_keys(r@) == spec_violations(*schema, *instance),
{
    let value = to_serde(instance);
    match jsonschema::options().with_draft(jsonschema::Draft::Draft202012).build(&to_serde(schema)) {
        Ok(validator) => validator.iter_errors(&value).map(|error| ArgumentViolation {
            instance_path: error.instance_path().to_string(),
            message: error.to_string(),
        }).collect(),
        Err(_) => Vec::new(),
    }
}

/// What compiling a schema gives: the first reference fault, else the
/// validator builder's error, else success.
pub open spec fn compile_outcome(schema: JsonValue) -> Result<(), DefinitionErrorView> {
    match reference_fault(schema) {
        Some(e) => Err(e),
        None => match spec_compile_error(schema) {
            Some(message) => Err(DefinitionErrorView::InvalidSchema { message }),
            None => Ok(()),
        },
    }
}

/// One tool input schema that compiled under the offline profile.
#[derive(Debug)]
pub struct CompiledSchema {
    schema: JsonValue,
}

impl View for CompiledSchema {
    type V = JsonValue;

    closed spec fn view(&self) -> JsonValue {
        self.schema
    }
}

impl CompiledSchema {
    /// Checks the references, then compiles the schema under Draft 2020-12.
    pub fn compile(schema: &JsonValue) -> (r: Result<CompiledSchema, ToolDefinitionError>)
        ensures
            match r {
                Ok(c) => compile_outcome(*schema) is Ok && c@ == *schema,
                Err(e) => compile_outcome(*schema) == Err::<(), DefinitionErrorView>(e@),
            },
    {
        if let Err(e) = reject_non_fragment_references(schema) {
            return Err(e);
        }
        match schema_build_error(schema) {
            Some(message) => Err(ToolDefinitionError::InvalidSchema { message }),
            None => Ok(CompiledSchema { schema: schema.clone() }),
        }
    }

    /// Validates the parsed arguments. The instance is never changed: the
    /// profile neither coerces nor injects defaults. The violations come out
    /// ordered by instance path, then by message.
    pub fn validate(&self, instance: &JsonValue) -> (r: Result<(), ArgumentValidationError>)
        ensures
            r is Ok <==> spec_violations(self@, *instance).len() == 0,
            r matches Err(e) ==> violation_keys(e.violations@).to_multiset() == spec_violations(
                self@,
                *instance,
            ).to_multiset() && keys_sorted(violation_keys(e.violations@)),
    {
        let violations = schema_violations(&self.schema, instance);
        if violations.len() == 0 {
            return Ok(());
        }
        Err(ArgumentValidationError { violations: sort_violations(violations) })
    }
}

} // verus!
