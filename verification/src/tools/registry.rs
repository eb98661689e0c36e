//! The tools available to one Agent run, each with its compiled schema.
//!
//! The registry is immutable for the run and holds no run state.
//! Registration order carries no model-visible authority; only the run's
//! configured pin order does.

use crate::tools::error::{
    DefinitionErrorView, ResolutionErrorView, ToolDefinitionError, ToolResolutionError,
};
use crate::tools::identity::{ToolIdentity, ToolSpec};
use crate::tools::schema::{compile_outcome, CompiledSchema};
use crate::tools::tool::Tool;
use std::sync::Arc;
use vstd::prelude::*;

verus! {

/// One registered tool with its compiled input schema.
pub struct RegisteredTool<T: Tool + ?Sized> {
    tool: Arc<T>,
    spec: ToolSpec,
    schema: CompiledSchema,
}

impl<T: Tool + ?Sized> RegisteredTool<T> {
    /// The schema compiled is the spec's own input schema.
    #[verifier::type_invariant]
    spec fn schema_is_the_spec_schema(self) -> bool {
        &&& self.schema@ == self.spec.input_schema
        &&& compile_outcome(self.spec.input_schema) is Ok
    }

    /// The spec the tool reported when it was registered.
    pub closed spec fn registered_spec(&self) -> ToolSpec {
        self.spec
    }

    /// The executor registered with the spec.
    pub closed spec fn registered_tool(&self) -> Arc<T> {
        self.tool
    }

    pub fn spec(&self) -> (r: &ToolSpec)
        ensures
            *r == self.registered_spec(),
    {
        &self.spec
    }

    pub fn schema(&self) -> (r: &CompiledSchema)
        ensures
            r@ == self.registered_spec().input_schema,
            compile_outcome(r@) is Ok,
    {
        proof {
            use_type_invariant(self);
        }
        &self.schema
    }

    /// The executor that the preparation seam hands on for an allowed call.
    pub fn tool(&self) -> (r: &Arc<T>)
        ensures
            *r == self.registered_tool(),
    {
        &self.tool
    }
}

/// The position of the first spec registered under `id`.
pub open spec fn tool_index_from(specs: Seq<ToolSpec>, id: Seq<char>, i: int) -> Option<int>
    decreases specs.len() - i,
{
    if i < 0 || i >= specs.len() {
        None
    } else if specs[i].identity.id@ == id {
        Some(i)
    } else {
        tool_index_from(specs, id, i + 1)
    }
}

pub open spec fn tool_index(specs: Seq<ToolSpec>, id: Seq<char>) -> Option<int> {
    tool_index_from(specs, id, 0)
}

/// The search from position `i` finds a spec with the id at or after `i`,
/// or none holds it there.
pub proof fn lemma_tool_index_from(specs: Seq<ToolSpec>, id: Seq<char>, i: int)
    requires
        0 <= i,
    ensures
        tool_index_from(specs, id, i) matches Some(j) ==> i <= j < specs.len()
            && specs[j].identity.id@ == id,
        tool_index_from(specs, id, i) is None ==> forall|j: int|
            i <= j < specs.len() ==> (#[trigger] specs[j]).identity.id@ != id,
    decreases specs.len() - i,
{
    if i < specs.len() && specs[i].identity.id@ != id {
        lemma_tool_index_from(specs, id, i + 1);
    }
}

/// What registering the specs in order gives: the first duplicate id or
/// schema failure, else success.
pub open spec fn build_outcome(specs: Seq<ToolSpec>) -> Result<(), DefinitionErrorView>
    decreases specs.len(),
{
    if specs.len() == 0 {
        Ok(())
    } else {
        match build_outcome(specs.drop_last()) {
            Err(e) => Err(e),
            Ok(()) => {
                let last = specs.last();
                if tool_index(specs.drop_last(), last.identity.id@) is Some {
                    Err(DefinitionErrorView::DuplicateId { id: last.identity.id@ })
                } else {
                    compile_outcome(last.input_schema)
                }
            },
        }
    }
}

/// What resolving one pin gives: the position of the tool registered under
/// the pin's id at exactly the pin's version. A version mismatch never
/// substitutes another version.
pub open spec fn resolve_outcome(specs: Seq<ToolSpec>, pin: ToolIdentity) -> Result<
    int,
    ResolutionErrorView,
> {
    match tool_index(specs, pin.id@) {
        None => Err(ResolutionErrorView::NotFound { id: pin.id@ }),
        Some(i) => if specs[i].identity.version@ != pin.version@ {
            Err(
                ResolutionErrorView::VersionMismatch {
                    id: pin.id@,
                    requested: pin.version@,
                    available: specs[i].identity.version@,
                },
            )
        } else {
            Ok(i)
        },
    }
}

/// What projecting the pins gives: the position of each pin's tool, in pin
/// order, or the first pin that does not resolve.
pub open spec fn project_outcome(specs: Seq<ToolSpec>, pins: Seq<ToolIdentity>) -> Result<
    Seq<int>,
    ResolutionErrorView,
>
    decreases pins.len(),
{
    if pins.len() == 0 {
        Ok(Seq::empty())
    } else {
        match project_outcome(specs, pins.drop_last()) {
            Err(e) => Err(e),
            Ok(found) => match resolve_outcome(specs, pins.last()) {
                Err(e) => Err(e),
                Ok(i) => Ok(found.push(i)),
            },
        }
    }
}

/// Once registering a prefix of the specs fails, registering all of them
/// fails the same way.
proof fn lemma_build_outcome_prefix(specs: Seq<ToolSpec>, n: int)
    requires
        0 <= n <= specs.len(),
        build_outcome(specs.subrange(0, n)) is Err,
    ensures
        build_outcome(specs) == build_outcome(specs.subrange(0, n)),
    decreases specs.len() - n,
{
    if n < specs.len() {
        assert(specs.subrange(0, n + 1).drop_last() =~= specs.subrange(0, n));
        lemma_build_outcome_prefix(specs, n + 1);
    } else {
        assert(specs.subrange(0, n) =~= specs);
    }
}

/// Once projecting a prefix of the pins fails, projecting all of them fails
/// the same way.
proof fn lemma_project_outcome_prefix(specs: Seq<ToolSpec>, pins: Seq<ToolIdentity>, n: int)
    requires
        0 <= n <= pins.len(),
        project_outcome(specs, pins.subrange(0, n)) is Err,
    ensures
        project_outcome(specs, pins) == project_outcome(specs, pins.subrange(0, n)),
    decreases pins.len() - n,
{
    if n < pins.len() {
        assert(pins.subrange(0, n + 1).drop_last() =~= pins.subrange(0, n));
        lemma_project_outcome_prefix(specs, pins, n + 1);
    } else {
        assert(pins.subrange(0, n) =~= pins);
    }
}

/// The tools available to one Agent run.
pub struct ToolRegistry<T: Tool + ?Sized> {
    entries: Vec<RegisteredTool<T>>,
}

impl<T: Tool + ?Sized> View for ToolRegistry<T> {
    type V = Seq<ToolSpec>;

    closed spec fn view(&self) -> Seq<ToolSpec> {
        self.entries@.map_values(|e: RegisteredTool<T>| e.registered_spec())
    }
}

impl<T: Tool + ?Sized> ToolRegistry<T> {
    /// The registered executors, in registration order.
    pub closed spec fn tools(&self) -> Seq<Arc<T>> {
        self.entries@.map_values(|e: RegisteredTool<T>| e.registered_tool())
    }

    /// No id is registered twice.
    #[verifier::type_invariant]
    spec fn ids_unique(self) -> bool {
        build_outcome(self.entries@.map_values(|e: RegisteredTool<T>| e.registered_spec())) is Ok
    }

    /// The position of the tool registered under `id`.
    fn index_of(&self, id: &crate::tools::identity::ToolId) -> (r: Option<usize>)
        ensures
            match r {
                Some(i) => tool_index(self@, id@) == Some(i as int) && i < self@.len(),
                None => tool_index(self@, id@) is None,
            },
    {
        let mut i: usize = 0;
        while i < self.entries.len()
            invariant
                0 <= i <= self@.len(),
                self@.len() == self.entries@.len(),
                self@ == self.entries@.map_values(|e: RegisteredTool<T>| e.registered_spec()),
                tool_index(self@, id@) == tool_index_from(self@, id@, i as int),
            decreases self.entries.len() - i,
        {
            let spec = self.entries[i].spec();
            assert(self@[i as int] == *spec);
            if spec.identity.id.same_as(id) {
                return Some(i);
            }
            i = i + 1;
        }
        None
    }

    /// Registers the tools with the specs they reported, in order. Fails on
    /// the first duplicate id or schema that does not compile.
    pub fn register(tools: Vec<Arc<T>>, specs: Vec<ToolSpec>) -> (r: Result<
        ToolRegistry<T>,
        ToolDefinitionError,
    >)
        requires
            tools@.len() == specs@.len(),
        ensures
            match r {
                Ok(registry) => build_outcome(specs@) is Ok && registry@ == specs@
                    && registry.tools() == tools@,
                Err(e) => build_outcome(specs@) == Err::<(), DefinitionErrorView>(e@),
            },
    {
        let ghost all_tools = tools@;
        let mut tools = tools;
        let mut registry = ToolRegistry { entries: Vec::new() };
        proof {
            assert(registry@ =~= specs@.subrange(0, 0));
            assert(registry.tools() =~= all_tools.subrange(0, 0));
            assert(tools@ =~= all_tools.subrange(0, all_tools.len() as int));
        }
        let mut i: usize = 0;
        while i < specs.len()
            invariant
                0 <= i <= specs@.len(),
                all_tools.len() == specs@.len(),
                tools@ == all_tools.subrange(i as int, all_tools.len() as int),
                registry@ == specs@.subrange(0, i as int),
                registry.tools() == all_tools.subrange(0, i as int),
                build_outcome(specs@.subrange(0, i as int)) is Ok,
            decreases specs.len() - i,
        {
            proof {
                use_type_invariant(&registry);
            }
            let ghost prefix = specs@.subrange(0, i as int);
            let ghost next = specs@.subrange(0, i + 1);
            proof {
                assert(next.drop_last() =~= prefix);
                assert(next.last() == specs@[i as int]);
            }
            let spec = specs[i].clone();
            if registry.index_of(&spec.identity.id).is_some() {
                proof {
                    lemma_build_outcome_prefix(specs@, i + 1);
                }
                return Err(ToolDefinitionError::DuplicateId { id: spec.identity.id.clone() });
            }
            let schema = match CompiledSchema::compile(&spec.input_schema) {
                Ok(schema) => schema,
                Err(e) => {
                    proof {
                        lemma_build_outcome_prefix(specs@, i + 1);
                    }
                    return Err(e);
                },
            };
            let tool = tools.remove(0);
            let entry = RegisteredTool { tool, spec, schema };
            let ghost old_entries = registry.entries@;
            let mut entries = registry.entries;
            entries.push(entry);
            proof {
                assert(tools@ =~= all_tools.subrange(i + 1, all_tools.len() as int));
                assert(entries@.map_values(|e: RegisteredTool<T>| e.registered_tool()) =~= all_tools.subrange(
                    0,
                    i + 1,
                ));
                assert(entries@.map_values(|e: RegisteredTool<T>| e.registered_spec()) =~= old_entries.map_values(
                    |e: RegisteredTool<T>| e.registered_spec(),
                ).push(specs@[i as int]));
                assert(entries@.map_values(|e: RegisteredTool<T>| e.registered_spec()) =~= next);
                assert(build_outcome(next) is Ok);
            }
            registry = ToolRegistry { entries };
            i = i + 1;
        }
        proof {
            assert(specs@.subrange(0, specs@.len() as int) =~= specs@);
            assert(all_tools.subrange(0, all_tools.len() as int) =~= all_tools);
        }
        Ok(registry)
    }

    /// Registers the tools, each with the spec it reports now: spec `k` is
    /// what tool `k` reported. The outcome is what registering those specs
    /// gives.
    pub fn build(tools: Vec<Arc<T>>) -> (r: Result<ToolRegistry<T>, ToolDefinitionError>)
        ensures
            r matches Ok(registry) ==> registry.tools() == tools@,
            exists|specs: Seq<ToolSpec>|
                specs.len() == tools@.len() && (forall|k: int|
                    0 <= k < specs.len() ==> #[trigger] tools@[k].reports(specs[k])) && match r {
                    Ok(registry) => build_outcome(specs) is Ok && registry@ == specs,
                    Err(e) => build_outcome(specs) == Err::<(), DefinitionErrorView>(e@),
                },
    {
        let mut specs: Vec<ToolSpec> = Vec::new();
        let mut i: usize = 0;
        while i < tools.len()
            invariant
                0 <= i <= tools@.len(),
                specs@.len() == i,
                forall|k: int| 0 <= k < i ==> #[trigger] tools@[k].reports(specs@[k]),
            decreases tools.len() - i,
        {
            specs.push(tools[i].spec());
            i = i + 1;
        }
        let ghost reported = specs@;
        let r = ToolRegistry::register(tools, specs);
        assert(reported.len() == tools@.len());
        r
    }

    /// Resolves one exact pin. A version mismatch never substitutes.
    pub fn resolve(&self, identity: &ToolIdentity) -> (r: Result<&RegisteredTool<T>, ToolResolutionError>)
        ensures
            match r {
                Ok(t) => resolve_outcome(self@, *identity) matches Ok(i) && t.registered_spec()
                    == self@[i] && t.registered_tool() == self.tools()[i],
                Err(e) => resolve_outcome(self@, *identity) == Err::<int, ResolutionErrorView>(e@),
            },
    {
        let i = match self.index_of(&identity.id) {
            Some(i) => i,
            None => {
                return Err(ToolResolutionError::NotFound { id: identity.id.clone() });
            },
        };
        let entry = &self.entries[i];
        assert(self@[i as int] == entry.registered_spec());
        assert(self.tools()[i as int] == entry.registered_tool());
        if !entry.spec.identity.version.same_as(&identity.version) {
            return Err(
                ToolResolutionError::VersionMismatch {
                    id: identity.id.clone(),
                    requested: identity.version.as_str().to_string(),
                    available: entry.spec.identity.version.as_str().to_string(),
                },
            );
        }
        Ok(entry)
    }

    /// The model-visible specs for the run's configured pins: exactly those
    /// pins, in configured order.
    pub fn project(&self, pins: &[ToolIdentity]) -> (r: Result<Vec<&ToolSpec>, ToolResolutionError>)
        ensures
            match r {
                Ok(v) => project_outcome(self@, pins@) matches Ok(found) && v@.len() == pins@.len()
                    && found.len() == pins@.len() && forall|k: int| 0 <= k < v@.len() ==> *v@[k] == self@[found[k]],
                Err(e) => project_outcome(self@, pins@) == Err::<Seq<int>, ResolutionErrorView>(e@),
            },
            r matches Ok(v) ==> forall|k: int|
                0 <= k < v@.len() ==> (#[trigger] v@[k]).identity.id@ == pins@[k].id@
                    && v@[k].identity.version@ == pins@[k].version@,
    {
        let mut out: Vec<&ToolSpec> = Vec::new();
        let ghost mut found: Seq<int> = Seq::empty();
        let mut i: usize = 0;
        while i < pins.len()
            invariant
                0 <= i <= pins@.len(),
                project_outcome(self@, pins@.subrange(0, i as int)) == Ok::<
                    Seq<int>,
                    ResolutionErrorView,
                >(found),
                out@.len() == i,
                found.len() == i,
                forall|k: int| 0 <= k < i ==> *out@[k] == self@[found[k]],
                forall|k: int|
                    0 <= k < i ==> (#[trigger] out@[k]).identity.id@ == pins@[k].id@
                        && out@[k].identity.version@ == pins@[k].version@,
            decreases pins.len() - i,
        {
            let ghost prefix = pins@.subrange(0, i as int);
            let ghost next = pins@.subrange(0, i + 1);
            proof {
                assert(next.drop_last() =~= prefix);
                assert(next.last() == pins@[i as int]);
            }
            match self.resolve(&pins[i]) {
                Ok(t) => {
                    let ghost j = resolve_outcome(self@, pins@[i as int])->Ok_0;
                    proof {
                        lemma_tool_index_from(self@, pins@[i as int].id@, 0);
                        found = found.push(j);
                    }
                    out.push(t.spec());
                },
                Err(e) => {
                    proof {
                        lemma_project_outcome_prefix(self@, pins@, i + 1);
                    }
                    return Err(e);
                },
            }
            i = i + 1;
        }
        proof {
            assert(pins@.subrange(0, pins@.len() as int) =~= pins@);
        }
        Ok(out)
    }
}

} // verus!
