//! Tool identity: the exact pin of one tool implementation.

use crate::json::JsonValue;
use crate::provider::{clone_opt_text, opt_text};
use crate::text::{is_ascii_alphanumeric, is_blank, spec_is_blank};
use crate::tools::error::ToolDefinitionError;
use vstd::prelude::*;

verus! {

/// A tool's id; never blank.
#[derive(Debug, PartialEq, Eq, Hash, PartialOrd, Ord)]
pub struct ToolId(String);

/// A tool's version; never blank.
#[derive(Debug, PartialEq, Eq, Hash, PartialOrd, Ord)]
pub struct ToolVersion(String);

impl View for ToolId {
    type V = Seq<char>;

    closed spec fn view(&self) -> Seq<char> {
        self.0@
    }
}

impl View for ToolVersion {
    type V = Seq<char>;

    closed spec fn view(&self) -> Seq<char> {
        self.0@
    }
}

impl ToolId {
    pub fn new(value: &str) -> (r: Result<ToolId, ToolDefinitionError>)
        ensures
            r is Ok <==> !spec_is_blank(value@),
            (exists|i: int| 0 <= i < value@.len() && is_ascii_alphanumeric(#[trigger] value@[i]))
                ==> r is Ok,
            r matches Ok(id) ==> id@ == value@,
            r matches Err(e) ==> e == (ToolDefinitionError::EmptyIdentity { field: "tool id" }),
    {
        if is_blank(value) {
            return Err(ToolDefinitionError::EmptyIdentity { field: "tool id" });
        }
        Ok(ToolId(value.to_string()))
    }

    pub fn as_str(&self) -> (r: &str)
        ensures
            r@ == self@,
    {
        self.0.as_str()
    }

    pub fn same_as(&self, other: &ToolId) -> (r: bool)
        ensures
            r == (self@ == other@),
    {
        self.0 == other.0
    }
}

impl Clone for ToolId {
    fn clone(&self) -> (r: Self)
        ensures
            r == *self,
    {
        ToolId(self.0.clone())
    }
}

impl ToolVersion {
    pub fn new(value: &str) -> (r: Result<ToolVersion, ToolDefinitionError>)
        ensures
            r is Ok <==> !spec_is_blank(value@),
            (exists|i: int| 0 <= i < value@.len() && is_ascii_alphanumeric(#[trigger] value@[i]))
                ==> r is Ok,
            r matches Ok(v) ==> v@ == value@,
            r matches Err(e) ==> e == (ToolDefinitionError::EmptyIdentity { field: "tool version" }),
    {
        if is_blank(value) {
            return Err(ToolDefinitionError::EmptyIdentity { field: "tool version" });
        }
        Ok(ToolVersion(value.to_string()))
    }

    pub fn as_str(&self) -> (r: &str)
        ensures
            r@ == self@,
    {
        self.0.as_str()
    }

    pub fn same_as(&self, other: &ToolVersion) -> (r: bool)
        ensures
            r == (self@ == other@),
    {
        self.0 == other.0
    }
}

impl Clone for ToolVersion {
    fn clone(&self) -> (r: Self)
        ensures
            r == *self,
    {
        ToolVersion(self.0.clone())
    }
}

/// Exact pin for one tool implementation.
#[derive(Debug, PartialEq, Eq)]
pub struct ToolIdentity {
    pub id: ToolId,
    pub version: ToolVersion,
    /// Reserved for later implementation pinning.
    pub implementation_digest: Option<String>,
}

impl Clone for ToolIdentity {
    fn clone(&self) -> (r: Self)
        ensures
            r == *self,
    {
        ToolIdentity {
            id: self.id.clone(),
            version: self.version.clone(),
            implementation_digest: clone_opt_text(&self.implementation_digest),
        }
    }
}

/// Two pins name the same implementation.
pub open spec fn same_identity(a: ToolIdentity, b: ToolIdentity) -> bool {
    a.id@ == b.id@ && a.version@ == b.version@ && opt_text(a.implementation_digest) == opt_text(
        b.implementation_digest,
    )
}

/// Whether two optional texts are the same.
pub fn same_opt_text(a: &Option<String>, b: &Option<String>) -> (r: bool)
    ensures
        r == (opt_text(*a) == opt_text(*b)),
{
    match (a, b) {
        (None, None) => true,
        (Some(x), Some(y)) => *x == *y,
        _ => false,
    }
}

impl ToolIdentity {
    pub fn same_as(&self, other: &ToolIdentity) -> (r: bool)
        ensures
            r == same_identity(*self, *other),
    {
        self.id.same_as(&other.id) && self.version.same_as(&other.version) && same_opt_text(
            &self.implementation_digest,
            &other.implementation_digest,
        )
    }
}

/// Model-visible description of one tool.
#[derive(Debug, PartialEq)]
pub struct ToolSpec {
    pub identity: ToolIdentity,
    pub description: String,
    pub input_schema: JsonValue,
}

impl Clone for ToolSpec {
    fn clone(&self) -> (r: Self)
        ensures
            r == *self,
    {
        ToolSpec {
            identity: self.identity.clone(),
            description: self.description.clone(),
            input_schema: self.input_schema.clone(),
        }
    }
}

} // verus!
