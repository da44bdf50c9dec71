//! Why executing a node failed.
use vstd::prelude::*;
use crate::ctx::StatePathError;
use crate::resolver::{ResolverError, ResolverErrorKind};
use crate::text::views;

verus! {

/// A failure of the store that remembers call results by idempotency key.
#[derive(Debug, Clone)]
pub enum IdempotencyStoreError {
    Backend(String),
}

/// Why a node could not be executed.
#[derive(Debug)]
pub enum ExecError {
    Validation(String),
    PermissionDenied { required: Vec<String> },
    ScopeMismatch { expected: String, actual: String },
    Template { template: String, source: minijinja::Error },
    Resolver { source: ResolverError },
    Fallback { route: String, source: ResolverError },
    DeadlineExceeded { node: String },
    Idempotency { key: String, source: IdempotencyStoreError },
    StatePath { path: String, source: StatePathError },
}

/// A resolver failure with its message as characters.
pub struct ResolverErrorV {
    pub kind: ResolverErrorKind,
    pub message: Seq<char>,
}

impl View for ResolverError {
    type V = ResolverErrorV;

    open spec fn view(&self) -> ResolverErrorV {
        ResolverErrorV { kind: self.kind, message: self.message@ }
    }
}

/// An execution failure with its texts as characters; a template failure is
/// known by its template.
pub enum ExecErrorV {
    Validation(Seq<char>),
    PermissionDenied(Seq<Seq<char>>),
    ScopeMismatch(Seq<char>, Seq<char>),
    Template(Seq<char>),
    Resolver(ResolverErrorV),
    Fallback(Seq<char>, ResolverErrorV),
    DeadlineExceeded(Seq<char>),
    Idempotency(Seq<char>, Seq<char>),
    StatePath(Seq<char>, StatePathError),
}

/// The message of a store failure.
pub open spec fn store_error_text(e: IdempotencyStoreError) -> Seq<char> {
    match e {
        IdempotencyStoreError::Backend(m) => m@,
    }
}

impl View for ExecError {
    type V = ExecErrorV;

    open spec fn view(&self) -> ExecErrorV {
        match *self {
            ExecError::Validation(m) => ExecErrorV::Validation(m@),
            ExecError::PermissionDenied { required } => ExecErrorV::PermissionDenied(views(required@)),
            ExecError::ScopeMismatch { expected, actual } => ExecErrorV::ScopeMismatch(expected@, actual@),
            ExecError::Template { template, source } => ExecErrorV::Template(template@),
            ExecError::Resolver { source } => ExecErrorV::Resolver(source@),
            ExecError::Fallback { route, source } => ExecErrorV::Fallback(route@, source@),
            ExecError::DeadlineExceeded { node } => ExecErrorV::DeadlineExceeded(node@),
            ExecError::Idempotency { key, source } => ExecErrorV::Idempotency(key@, store_error_text(source)),
            ExecError::StatePath { path, source } => ExecErrorV::StatePath(path@, source),
        }
    }
}

}
