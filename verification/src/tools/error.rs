//! Errors of tool definition, resolution and argument validation.

use crate::text::{decimal, decimal_text};
use crate::tools::identity::ToolId;
use vstd::prelude::*;
use vstd::string::StringExecFns;

verus! {

/// A tool definition is wrong. Registry construction fails; no run starts.
#[derive(Debug, PartialEq, Eq)]
pub enum ToolDefinitionError {
    EmptyIdentity { field: &'static str },
    DuplicateId { id: ToolId },
    InvalidSchema { message: String },
    ExternalReference { reference: String },
}

/// A definition error taken by view: its texts as sequences.
pub enum DefinitionErrorView {
    EmptyIdentity { field: &'static str },
    DuplicateId { id: Seq<char> },
    InvalidSchema { message: Seq<char> },
    ExternalReference { reference: Seq<char> },
}

impl View for ToolDefinitionError {
    type V = DefinitionErrorView;

    open spec fn view(&self) -> DefinitionErrorView {
        match self {
            ToolDefinitionError::EmptyIdentity { field } => DefinitionErrorView::EmptyIdentity {
                field: *field,
            },
            ToolDefinitionError::DuplicateId { id } => DefinitionErrorView::DuplicateId { id: id@ },
            ToolDefinitionError::InvalidSchema { message } => DefinitionErrorView::InvalidSchema {
                message: message@,
            },
            ToolDefinitionError::ExternalReference { reference } => {
                DefinitionErrorView::ExternalReference { reference: reference@ }
            },
        }
    }
}

/// A configured pin does not resolve. No substitution is ever attempted.
#[derive(Debug, PartialEq, Eq)]
pub enum ToolResolutionError {
    NotFound { id: ToolId },
    VersionMismatch { id: ToolId, requested: String, available: String },
}

/// A resolution error taken by view: its texts as sequences.
pub enum ResolutionErrorView {
    NotFound { id: Seq<char> },
    VersionMismatch { id: Seq<char>, requested: Seq<char>, available: Seq<char> },
}

impl View for ToolResolutionError {
    type V = ResolutionErrorView;

    open spec fn view(&self) -> ResolutionErrorView {
        match self {
            ToolResolutionError::NotFound { id } => ResolutionErrorView::NotFound { id: id@ },
            ToolResolutionError::VersionMismatch { id, requested, available } => {
                ResolutionErrorView::VersionMismatch {
                    id: id@,
                    requested: requested@,
                    available: available@,
                }
            },
        }
    }
}

impl ToolResolutionError {
    /// The error's text.
    pub fn to_text(&self) -> (r: String)
        ensures
            r@ == resolution_text(self@),
    {
        match self {
            ToolResolutionError::NotFound { id } => {
                let mut text = "no tool registered with id ".to_string();
                text.append(id.as_str());
                text
            },
            ToolResolutionError::VersionMismatch { id, requested, available } => {
                let mut text = "tool ".to_string();
                text.append(id.as_str());
                text.append(" is registered at version ");
                text.append(available.as_str());
                text.append(", not the pinned ");
                text.append(requested.as_str());
                text
            },
        }
    }
}

/// The text of a resolution error.
pub open spec fn resolution_text(e: ResolutionErrorView) -> Seq<char> {
    match e {
        ResolutionErrorView::NotFound { id } => "no tool registered with id "@ + id,
        ResolutionErrorView::VersionMismatch { id, requested, available } => "tool "@ + id
            + " is registered at version "@ + available + ", not the pinned "@ + requested,
    }
}

/// One JSON Schema violation.
#[derive(Debug, PartialEq, Eq)]
pub struct ArgumentViolation {
    pub instance_path: String,
    pub message: String,
}

/// Arguments failed schema validation. Policy and execution never run.
#[derive(Debug, PartialEq, Eq)]
pub struct ArgumentValidationError {
    pub violations: Vec<ArgumentViolation>,
}

/// The text of a validation failure with `n` violations.
pub open spec fn validation_text(n: nat) -> Seq<char> {
    "tool arguments failed validation ("@ + decimal(n) + " violation(s))"@
}

impl ArgumentValidationError {
    /// The error's text, which counts the violations.
    pub fn to_text(&self) -> (r: String)
        ensures
            r@ == validation_text(self.violations@.len()),
    {
        let mut text = "tool arguments failed validation (".to_string();
        let count = decimal_text(self.violations.len());
        text.append(count.as_str());
        text.append(" violation(s))");
        text
    }
}

} // verus!
