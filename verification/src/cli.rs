//! The developer command line: its commands, the backend it accepts, the
//! permissions a local run grants, the stub that answers local calls, and
//! the trace each call leaves.
use vstd::prelude::*;
use crate::contract::{flow_keys_ordered, CallMode, CallSpec, FlowSpec, NodeDef, Scope};
use crate::ctx::{object_entries, path_segments, set_in, Ctx, StatePathError};
use crate::error::ExecError;
use crate::executors::{collect_returns, exec_in, exec_out, in_result, CallOutcome};
use crate::json::{entries_view, items_view, jget, lemma_entries_view, lemma_items_view, Json, JsonNumber, JsonV, NumberV};
use crate::json_text::{json_text_parse, parse_json};
use crate::resolver::{CallRequest, Resolver, ResolverError, ResolverResponse};
use crate::text::{concat, decimal, owned, same_text, split_on, views};

verus! {

/// What the command line was asked, with the registry backend to use.
#[derive(Debug, Clone)]
pub struct Cli {
    pub registry: Option<String>,
    pub command: Command,
}

/// The commands of the command line.
#[derive(Debug, Clone)]
pub enum Command {
    /// Validate a flow definition.
    Validate { path: String },
    /// Publish a flow definition into the registry.
    Publish { path: String, tenant: String, team: Option<String>, user: Option<String>, activate: bool },
    /// Resolve a flow for a scope.
    Resolve {
        flow_id: String,
        tenant: String,
        team: Option<String>,
        user: Option<String>,
        version: Option<String>,
        caller: String,
    },
    /// Run a flow locally against the stub resolver.
    Run { path: String, input: String, tenant: String, team: Option<String>, user: Option<String> },
}

/// Only the in-memory registry is available to the command line: no backend
/// named, or `inmem`.
pub open spec fn backend_ok(registry: Option<Seq<char>>) -> bool {
    match registry {
        None => true,
        Some(r) => r == "inmem"@,
    }
}

pub fn backend_supported(registry: Option<&str>) -> (b: bool)
    ensures
        b == backend_ok(
            match registry {
                Some(r) => Some(r@),
                None => None,
            },
        ),
{
    match registry {
        None => true,
        Some(r) => same_text(r, "inmem"),
    }
}

/// What a local run grants its caller: the tenant, `tenant:team` and
/// `tenant::user`, each when the scope has the parts.
pub open spec fn local_permissions(scope: Scope) -> Seq<Seq<char>> {
    let base = seq![scope.tenant@];
    let with_team = match scope.team {
        Some(t) => base.push(scope.tenant@ + ":"@ + t@),
        None => base,
    };
    match scope.user {
        Some(u) => with_team.push(scope.tenant@ + "::"@ + u@),
        None => with_team,
    }
}

pub fn caller_permissions(scope: &Scope) -> (p: Vec<String>)
    ensures
        views(p@) == local_permissions(*scope),
{
    let mut p: Vec<String> = Vec::new();
    p.push(scope.tenant.clone());
    if let Some(t) = &scope.team {
        let a = concat(scope.tenant.as_str(), ":");
        p.push(concat(a.as_str(), t.as_str()));
    }
    if let Some(u) = &scope.user {
        let a = concat(scope.tenant.as_str(), "::");
        p.push(concat(a.as_str(), u.as_str()));
    }
    proof {
        reveal_strlit(":");
        reveal_strlit("::");
        assert(views(p@) =~= local_permissions(*scope));
    }
    p
}

/// A call mode as it is written.
pub open spec fn mode_word(mode: CallMode) -> Seq<char> {
    match mode {
        CallMode::Sync => "sync"@,
        CallMode::Async => "async"@,
        CallMode::FireAndForget => "fire_and_forget"@,
    }
}

pub fn mode_text(mode: CallMode) -> (s: String)
    ensures
        s@ == mode_word(mode),
{
    match mode {
        CallMode::Sync => owned("sync"),
        CallMode::Async => owned("async"),
        CallMode::FireAndForget => owned("fire_and_forget"),
    }
}

/// The trace a call leaves, keys in order: attempts, fan-out, mode, node,
/// response and target.
pub open spec fn trace_json(node_name: Seq<char>, spec: CallSpec, outcome: CallOutcome) -> JsonV {
    JsonV::Object(seq![
        ("attempts"@, JsonV::Number(NumberV::PosInt(outcome.attempts as u64))),
        ("fanout"@, match outcome.fanout {
            Some(vs) => JsonV::Array(items_view(vs@)),
            None => JsonV::Null,
        }),
        ("mode"@, JsonV::Str(mode_word(spec.mode))),
        ("node"@, JsonV::Str(node_name)),
        ("response"@, outcome.value@),
        ("target"@, JsonV::Str(spec.target@)),
    ])
}

pub fn call_trace(node_name: &str, spec: &CallSpec, outcome: &CallOutcome) -> (v: Json)
    ensures
        v@ == trace_json(node_name@, *spec, *outcome),
{
    let fanout = match &outcome.fanout {
        Some(vs) => {
            let mut items: Vec<Json> = Vec::new();
            let mut i: usize = 0;
            while i < vs.len()
                invariant
                    i <= vs@.len(),
                    items_view(items@) == items_view(vs@.take(i as int)),
                decreases vs@.len() - i,
            {
                let x = vs[i].clone();
                proof {
                    crate::json::lemma_items_view_push(items@, x);
                    assert(vs@.take(i + 1) == vs@.take(i as int).push(vs@[i as int]));
                    crate::json::lemma_items_view_push(vs@.take(i as int), vs@[i as int]);
                }
                items.push(x);
                i = i + 1;
            }
            assert(vs@.take(vs@.len() as int) == vs@);
            Json::Array(items)
        },
        None => Json::Null,
    };
    let mut entries: Vec<(String, Json)> = Vec::new();
    entries.push((owned("attempts"), Json::Number(JsonNumber::PosInt(outcome.attempts as u64))));
    entries.push((owned("fanout"), fanout));
    entries.push((owned("mode"), Json::String(mode_text(spec.mode))));
    entries.push((owned("node"), Json::String(owned(node_name))));
    entries.push((owned("response"), outcome.value.clone()));
    entries.push((owned("target"), Json::String(spec.target.clone())));
    proof {
        reveal_strlit("attempts");
        reveal_strlit("fanout");
        reveal_strlit("mode");
        reveal_strlit("node");
        reveal_strlit("response");
        reveal_strlit("target");
        lemma_entries_view(entries@);
        assert(entries_view(entries@) =~= crate::ctx::object_entries(trace_json(node_name@, *spec, *outcome)));
    }
    Json::Object(entries)
}

/// Answers every call of a local run with a fixed forecast.
#[derive(Debug, Clone, Copy, Default)]
pub struct StubResolver {}

/// The forecast the stub answers a call with, keys in order.
pub open spec fn stub_forecast(spec: CallSpec) -> JsonV {
    JsonV::Object(seq![
        ("payload"@, JsonV::Object(seq![
            ("description"@, JsonV::Str("Stub forecast"@)),
            ("forecast_date"@, JsonV::Str("today"@)),
            ("mode"@, JsonV::Str(mode_word(spec.mode))),
            ("target"@, JsonV::Str(spec.target@)),
            ("temp_c"@, JsonV::Number(NumberV::Float("21.0"@))),
        ])),
    ])
}

pub fn stub_forecast_value(spec: &CallSpec) -> (v: Json)
    ensures
        v@ == stub_forecast(*spec),
{
    let mut inner: Vec<(String, Json)> = Vec::new();
    inner.push((owned("description"), Json::String(owned("Stub forecast"))));
    inner.push((owned("forecast_date"), Json::String(owned("today"))));
    inner.push((owned("mode"), Json::String(mode_text(spec.mode))));
    inner.push((owned("target"), Json::String(spec.target.clone())));
    inner.push((owned("temp_c"), Json::Number(JsonNumber::Float(owned("21.0")))));
    let mut outer: Vec<(String, Json)> = Vec::new();
    outer.push((owned("payload"), Json::Object(inner)));
    proof {
        reveal_strlit("payload");
        reveal_strlit("description");
        reveal_strlit("Stub forecast");
        reveal_strlit("forecast_date");
        reveal_strlit("today");
        reveal_strlit("mode");
        reveal_strlit("target");
        reveal_strlit("temp_c");
        reveal_strlit("21.0");
        lemma_entries_view(inner@);
        lemma_entries_view(outer@);
        assert(entries_view(inner@) =~= crate::ctx::object_entries(crate::ctx::object_entries(stub_forecast(*spec))[0].1));
        assert(entries_view(outer@) =~= crate::ctx::object_entries(stub_forecast(*spec)));
    }
    Json::Object(outer)
}

impl Resolver for StubResolver {
    /// Answers with the stub forecast for the call's target and mode.
    fn resolve(&self, ctx: &Ctx, spec: &CallSpec, request: &CallRequest) -> (r: Result<ResolverResponse, ResolverError>)
        ensures
            r matches Ok(ResolverResponse::Sync(v)) && v@ == stub_forecast(*spec),
    {
        Ok(ResolverResponse::Sync(stub_forecast_value(spec)))
    }
}

/// The input parameters of a local run, read from JSON text; nothing when the
/// text is not JSON.
pub fn parse_params(text: &str) -> (r: Option<Json>)
    ensures
        match json_text_parse(text@) {
            Some(v) => r matches Some(j) && j@ == v,
            None => r is None,
        },
{
    parse_json(text)
}

/// A text without `sep` is one piece.
proof fn lemma_split_whole(s: Seq<char>, sep: char)
    requires
        forall|i: int| 0 <= i < s.len() ==> s[i] != sep,
    ensures
        split_on(s, sep) == seq![s],
    decreases s.len(),
{
    if s.len() == 0 {
        assert(s =~= Seq::<char>::empty());
    } else {
        lemma_split_whole(s.drop_last(), sep);
        let rest = split_on(s.drop_last(), sep);
        assert(rest == seq![s.drop_last()]);
        assert(s.last() != sep);
        assert(s.drop_last().push(s.last()) =~= s);
        assert(rest.update(rest.len() - 1, rest.last().push(s.last())) =~= seq![s]);
    }
}

/// What a call's answer carries into the state: its `payload` field, if any.
pub open spec fn carried_payload(value: JsonV) -> Option<JsonV> {
    jget(value, "payload"@)
}

/// Takes a call's outcome into a local run: its `payload` field, when it has
/// one, is written at `payload` of the state, and the call's trace is added
/// to the run's calls.
pub fn apply_call_outcome(ctx: &mut Ctx, node: &str, spec: &CallSpec, outcome: &CallOutcome, calls: &mut Vec<Json>) -> (r: Result<(), StatePathError>)
    ensures
        r is Ok,
        match carried_payload(outcome.value@) {
            Some(p) => final(ctx).state@ == JsonV::Object(set_in(object_entries(old(ctx).state@), seq!["payload"@], p)),
            None => final(ctx).state == old(ctx).state,
        },
        final(ctx).params == old(ctx).params,
        final(ctx).meta == old(ctx).meta,
        final(ctx).deadline == old(ctx).deadline,
        final(ctx).idempotency_key == old(ctx).idempotency_key,
        final(ctx).permissions == old(ctx).permissions,
        items_view(final(calls)@) == items_view(old(calls)@).push(trace_json(node@, *spec, *outcome)),
{
    match outcome.value.get("payload") {
        Some(p) => {
            proof {
                reveal_strlit("payload");
                lemma_split_whole("payload"@, '.');
                assert(path_segments("payload"@) == Ok::<Seq<Seq<char>>, StatePathError>(seq!["payload"@]));
            }
            let v = p.clone();
            match ctx.set_state_path("payload", v) {
                Ok(()) => {},
                Err(e) => {
                    return Err(e);
                },
            }
        },
        None => {},
    }
    let trace = call_trace(node, spec, outcome);
    proof {
        crate::json::lemma_items_view_push(calls@, trace);
    }
    calls.push(trace);
    Ok(())
}

/// What a local run prints, keys in order: the calls' traces, the flow id,
/// the result (`null` when no response node ran), the status and the version.
pub open spec fn summary_json(spec: FlowSpec, calls: Seq<JsonV>, result: Option<JsonV>) -> JsonV {
    JsonV::Object(seq![
        ("calls"@, JsonV::Array(calls)),
        ("flow_id"@, JsonV::Str(spec.flow_id@)),
        ("result"@, match result {
            Some(v) => v,
            None => JsonV::Null,
        }),
        ("status"@, JsonV::Str("ok"@)),
        ("version"@, match spec.version {
            Some(v) => JsonV::Number(NumberV::PosInt(v as u64)),
            None => JsonV::Null,
        }),
    ])
}

/// The report of a local run.
pub fn run_summary(spec: &FlowSpec, calls: &Vec<Json>, result: Option<Json>) -> (j: Json)
    ensures
        j@ == summary_json(*spec, items_view(calls@), match result {
            Some(v) => Some(v@),
            None => None,
        }),
{
    let mut items: Vec<Json> = Vec::new();
    let mut i: usize = 0;
    while i < calls.len()
        invariant
            i <= calls@.len(),
            items_view(items@) == items_view(calls@.take(i as int)),
        decreases calls@.len() - i,
    {
        let x = calls[i].clone();
        proof {
            crate::json::lemma_items_view_push(items@, x);
            assert(calls@.take(i + 1) == calls@.take(i as int).push(calls@[i as int]));
            crate::json::lemma_items_view_push(calls@.take(i as int), calls@[i as int]);
        }
        items.push(x);
        i = i + 1;
    }
    assert(calls@.take(calls@.len() as int) == calls@);
    let ghost rv = match &result {
        Some(v) => Some(v@),
        None => None::<JsonV>,
    };
    let result_value = match result {
        Some(v) => v,
        None => Json::Null,
    };
    let version = match spec.version {
        Some(v) => Json::Number(JsonNumber::PosInt(v as u64)),
        None => Json::Null,
    };
    let mut entries: Vec<(String, Json)> = Vec::new();
    entries.push((owned("calls"), Json::Array(items)));
    entries.push((owned("flow_id"), Json::String(spec.flow_id.clone())));
    entries.push((owned("result"), result_value));
    entries.push((owned("status"), Json::String(owned("ok"))));
    entries.push((owned("version"), version));
    proof {
        reveal_strlit("calls");
        reveal_strlit("flow_id");
        reveal_strlit("result");
        reveal_strlit("status");
        reveal_strlit("ok");
        reveal_strlit("version");
        lemma_entries_view(entries@);
        assert(entries_view(entries@) =~= crate::ctx::object_entries(summary_json(*spec, items_view(calls@), rv)));
    }
    Json::Object(entries)
}

/// A document that may be missing, as its view.
pub open spec fn opt_json(o: Option<Json>) -> Option<JsonV> {
    match o {
        Some(v) => Some(v@),
        None => None,
    }
}

/// A local run of a flow in progress: the position of the next node, the
/// traces of the calls made so far, and what the last response node gave.
#[derive(Debug)]
pub struct LocalRun {
    pub next: usize,
    pub calls: Vec<Json>,
    pub result: Option<Json>,
}

/// What the caller of a local run is to do next.
#[derive(Debug)]
pub enum RunAction {
    /// Make the call of the call node at this position, and hand its outcome
    /// to `called`.
    Call(usize),
    /// Step on.
    Continue,
    /// The run is over: its report, or the failure that stopped it.
    Finish(Result<Json, ExecError>),
}

/// The context is as before but for its params.
pub open spec fn same_but_params(a: Ctx, b: Ctx) -> bool {
    &&& a.state == b.state
    &&& a.meta == b.meta
    &&& a.deadline == b.deadline
    &&& a.idempotency_key == b.idempotency_key
    &&& a.permissions == b.permissions
}

impl LocalRun {
    /// A run that starts at the first node, with no calls made and no result.
    pub fn new() -> (r: LocalRun)
        ensures
            r.next == 0,
            r.calls@.len() == 0,
            r.result is None,
    {
        LocalRun { next: 0, calls: Vec::new(), result: None }
    }

    /// Runs the next node of the flow, nodes in key order: an entry node
    /// validates the params, a response node gives the result, a call node is
    /// handed to the caller; after the last node the run's report is given.
    /// The first failure ends the run.
    pub fn step(&mut self, spec: &FlowSpec, ctx: &mut Ctx) -> (a: RunAction)
        requires
            flow_keys_ordered(*spec),
            old(self).next <= spec.nodes@.len(),
        ensures
            final(self).next <= spec.nodes@.len(),
            final(self).calls@ == old(self).calls@,
            old(self).next == spec.nodes@.len() ==> {
                &&& a matches RunAction::Finish(Ok(j)) && j@ == summary_json(*spec, items_view(old(self).calls@), opt_json(old(self).result))
                &&& *final(ctx) == *old(ctx)
                &&& final(self).next == old(self).next
            },
            old(self).next < spec.nodes@.len() ==> match spec.nodes@[old(self).next as int].1 {
                NodeDef::In { spec: s } => same_but_params(*final(ctx), *old(ctx)) && opt_json(final(self).result) == opt_json(old(self).result)
                    && match in_result(*old(ctx), s) {
                    Ok(p) => a is Continue && final(ctx).params@ == p && final(self).next == old(self).next + 1,
                    Err(e) => (a matches RunAction::Finish(Err(x)) && x@ == e) && final(ctx).params == old(ctx).params,
                },
                NodeDef::Call { .. } => a == RunAction::Call(old(self).next) && *final(ctx) == *old(ctx)
                    && final(self).next == old(self).next && opt_json(final(self).result) == opt_json(old(self).result),
                NodeDef::Out { spec: s } => *final(ctx) == *old(ctx) && match collect_returns(*old(ctx), s.returns@) {
                    Ok(p) => a is Continue && opt_json(final(self).result) == Some(JsonV::Object(p)) && final(self).next == old(self).next + 1,
                    Err(e) => a matches RunAction::Finish(Err(x)) && x@ == e,
                },
            },
    {
        if self.next == spec.nodes.len() {
            let result = match &self.result {
                Some(v) => Some(v.clone()),
                None => None,
            };
            return RunAction::Finish(Ok(run_summary(spec, &self.calls, result)));
        }
        let i = self.next;
        let name = spec.nodes[i].0.as_str();
        match &spec.nodes[i].1 {
            NodeDef::In { spec: in_spec } => {
                match exec_in(spec.flow_id.as_str(), name, ctx, in_spec) {
                    Ok(()) => {
                        self.next = i + 1;
                        RunAction::Continue
                    },
                    Err(e) => RunAction::Finish(Err(e)),
                }
            },
            NodeDef::Call { .. } => RunAction::Call(i),
            NodeDef::Out { spec: out_spec } => {
                match exec_out(spec.flow_id.as_str(), name, ctx, out_spec) {
                    Ok(v) => {
                        self.result = Some(v);
                        self.next = i + 1;
                        RunAction::Continue
                    },
                    Err(e) => RunAction::Finish(Err(e)),
                }
            },
        }
    }

    /// Takes the outcome of the call the last step asked for: the answer's
    /// `payload` goes into the state, the call's trace joins the calls, and
    /// the run moves to the next node.
    pub fn called(&mut self, spec: &FlowSpec, ctx: &mut Ctx, outcome: &CallOutcome) -> (a: RunAction)
        requires
            old(self).next < spec.nodes@.len(),
            spec.nodes@[old(self).next as int].1 is Call,
        ensures
            a is Continue,
            final(self).next == old(self).next + 1,
            opt_json(final(self).result) == opt_json(old(self).result),
            match carried_payload(outcome.value@) {
                Some(p) => final(ctx).state@ == JsonV::Object(set_in(object_entries(old(ctx).state@), seq!["payload"@], p)),
                None => final(ctx).state == old(ctx).state,
            },
            final(ctx).params == old(ctx).params,
            final(ctx).meta == old(ctx).meta,
            final(ctx).deadline == old(ctx).deadline,
            final(ctx).idempotency_key == old(ctx).idempotency_key,
            final(ctx).permissions == old(ctx).permissions,
            items_view(final(self).calls@) == items_view(old(self).calls@).push(
                trace_json(spec.nodes@[old(self).next as int].0@, spec.nodes@[old(self).next as int].1->Call_spec, *outcome),
            ),
    {
        let i = self.next;
        let n = spec.nodes.len();
        assert(i < n);
        let next = i + 1;
        match &spec.nodes[i].1 {
            NodeDef::Call { spec: call_spec } => {
                let _ = apply_call_outcome(ctx, spec.nodes[i].0.as_str(), call_spec, outcome, &mut self.calls);
            },
            _ => {},
        }
        self.next = next;
        RunAction::Continue
    }
}

}
