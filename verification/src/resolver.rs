//! What a call node asks of the component or flow it targets, and the
//! answers and failures that come back.
use vstd::prelude::*;
use crate::contract::CallSpec;
use crate::ctx::Ctx;
use crate::json::Json;
use crate::text::{concat, owned};

verus! {

/// What one attempt of a call hands to the resolver.
#[derive(Debug, Clone)]
pub struct CallRequest {
    pub params: Json,
    /// How long the resolver may take, in nanoseconds, if bounded.
    pub timeout: Option<u128>,
    pub attempt: u32,
}

/// A resolver's answer.
#[derive(Debug, Clone)]
pub enum ResolverResponse {
    Sync(Json),
    AsyncAck(Json),
    Fanout(Vec<Json>),
}

/// The fallback route of a failed call and the request it receives.
#[derive(Debug, Clone, Copy)]
pub struct FallbackContext<'a> {
    pub route: &'a str,
    pub request: &'a CallRequest,
}

/// How a resolution failed.
#[derive(Debug, Clone, Copy, PartialEq, Eq, Structural)]
pub enum ResolverErrorKind {
    Retryable,
    Fatal,
    Timeout,
    Rejected,
}

/// A resolution failure and its message.
#[derive(Debug, Clone)]
pub struct ResolverError {
    pub kind: ResolverErrorKind,
    pub message: String,
}

/// The name of a failure kind, as it is shown.
pub open spec fn kind_text(kind: ResolverErrorKind) -> Seq<char> {
    match kind {
        ResolverErrorKind::Retryable => "Retryable"@,
        ResolverErrorKind::Fatal => "Fatal"@,
        ResolverErrorKind::Timeout => "Timeout"@,
        ResolverErrorKind::Rejected => "Rejected"@,
    }
}

/// The name of a failure kind, as it is shown.
pub fn kind_name(kind: ResolverErrorKind) -> (s: String)
    ensures
        s@ == kind_text(kind),
{
    match kind {
        ResolverErrorKind::Retryable => owned("Retryable"),
        ResolverErrorKind::Fatal => owned("Fatal"),
        ResolverErrorKind::Timeout => owned("Timeout"),
        ResolverErrorKind::Rejected => owned("Rejected"),
    }
}

/// Whether a failure of this kind is worth another attempt.
pub open spec fn retryable_kind(kind: ResolverErrorKind) -> bool {
    kind == ResolverErrorKind::Retryable || kind == ResolverErrorKind::Timeout
}

impl ResolverError {
    pub fn retryable(message: &str) -> (e: ResolverError)
        ensures
            e.kind == ResolverErrorKind::Retryable,
            e.message@ == message@,
    {
        ResolverError { kind: ResolverErrorKind::Retryable, message: owned(message) }
    }

    pub fn fatal(message: &str) -> (e: ResolverError)
        ensures
            e.kind == ResolverErrorKind::Fatal,
            e.message@ == message@,
    {
        ResolverError { kind: ResolverErrorKind::Fatal, message: owned(message) }
    }

    pub fn timeout(message: &str) -> (e: ResolverError)
        ensures
            e.kind == ResolverErrorKind::Timeout,
            e.message@ == message@,
    {
        ResolverError { kind: ResolverErrorKind::Timeout, message: owned(message) }
    }

    pub fn rejected(message: &str) -> (e: ResolverError)
        ensures
            e.kind == ResolverErrorKind::Rejected,
            e.message@ == message@,
    {
        ResolverError { kind: ResolverErrorKind::Rejected, message: owned(message) }
    }

    /// A fatal failure saying that the resolver cannot do `operation`.
    pub fn unsupported(operation: &str) -> (e: ResolverError)
        ensures
            e.kind == ResolverErrorKind::Fatal,
            e.message@ == "resolver does not support "@ + operation@,
    {
        ResolverError {
            kind: ResolverErrorKind::Fatal,
            message: concat("resolver does not support ", operation),
        }
    }

    /// Retryable failures and timeouts are worth another attempt.
    pub fn is_retryable(&self) -> (b: bool)
        ensures
            b == retryable_kind(self.kind),
    {
        match self.kind {
            ResolverErrorKind::Retryable | ResolverErrorKind::Timeout => true,
            _ => false,
        }
    }
}

/// What a call node's target is resolved by: a registry of flows, a component
/// host, or anything else that answers requests.
pub trait Resolver {
    fn resolve(&self, ctx: &Ctx, spec: &CallSpec, request: &CallRequest) -> Result<
        ResolverResponse,
        ResolverError,
    >;

    /// Answers the fallback route of a failed call; by default no fallback is supported.
    fn resolve_fallback(&self, ctx: &Ctx, spec: &CallSpec, fallback: &FallbackContext<'_>) -> (r: Result<
        ResolverResponse,
        ResolverError,
    >)
        default_ensures
            r matches Err(e) && e.kind == ResolverErrorKind::Fatal && e.message@ == "resolver does not support fallback"@,
    {
        proof {
            reveal_strlit("resolver does not support ");
            reveal_strlit("fallback");
            reveal_strlit("resolver does not support fallback");
        }
        Err(ResolverError::unsupported("fallback"))
    }
}

}
