use std::cell::RefCell;
use std::collections::HashMap;

use flow2flow::conformance::{has_unique_trace, is_idempotent};
use flow2flow::contract::{
    CallMode, CallSpec, InSpec, JoinSpec, JoinStrategy, OnErrorSpec, OutSpec, ParamKind, RetrySpec,
    Scope, ValidatorSpec,
};
use flow2flow::ctx::{split_path, Ctx, Meta, StatePathError};
use flow2flow::error::ExecError;
use flow2flow::executors::{
    compute_next_delay, compute_timeout, exec_in, exec_out, CallAction, CallEvent, CallOutcome,
    CallRun, DeadlineStatus,
};
use flow2flow::json::{Json, JsonNumber};
use flow2flow::legacy::{runtime_from_steps, FlowRuntime};
use flow2flow::resolver::{
    CallRequest, FallbackContext, Resolver, ResolverError, ResolverErrorKind, ResolverResponse,
};
use flow2flow::simple::{FlowDefinition, FlowStep};
use flow2flow::contract::FlowValidationError;
use flow2flow::templating::TemplateEngine;

fn s(x: &str) -> Json {
    Json::String(x.to_string())
}

fn n(x: u64) -> Json {
    Json::Number(JsonNumber::PosInt(x))
}

fn obj(entries: Vec<(&str, Json)>) -> Json {
    Json::Object(entries.into_iter().map(|(k, v)| (k.to_string(), v)).collect())
}

fn at<'a>(v: &'a Json, path: &[&str]) -> Option<&'a Json> {
    let mut cur = v;
    for p in path {
        cur = cur.get(p)?;
    }
    Some(cur)
}

fn scope() -> Scope {
    Scope { tenant: "tenant".into(), team: Some("team".into()), user: Some("user".into()) }
}

fn meta() -> Meta {
    Meta::new(scope(), Some("channel".into()), "corr-123")
}

fn validator(kind: ParamKind, required: bool) -> ValidatorSpec {
    ValidatorSpec { kind, required, description: None, default: None }
}

fn call_spec(target: &str) -> CallSpec {
    CallSpec {
        target: target.into(),
        mode: CallMode::Sync,
        timeout_ms: None,
        retry: None,
        params_map: vec![],
        result_map: vec![],
        on_error: None,
        join: None,
        scope: None,
    }
}

#[derive(Default)]
struct MemoryStore {
    inner: RefCell<HashMap<String, Json>>,
}

impl MemoryStore {
    fn insert(&self, key: &str, value: Json) {
        self.inner.borrow_mut().insert(key.to_string(), value);
    }
}

/// Runs a call step by step, doing the outside work each step asks for.
fn run_call(
    ctx: &mut Ctx,
    spec: &CallSpec,
    resolver: &dyn Resolver,
    store: Option<&MemoryStore>,
    templates: &TemplateEngine,
) -> Result<CallOutcome, ExecError> {
    let (mut run, mut action) =
        CallRun::start(ctx, spec, templates, "n02", store.is_some(), false, DeadlineStatus::Unbounded);
    loop {
        let event = match action {
            CallAction::Load(key) => {
                CallEvent::Loaded(Ok(store.unwrap().inner.borrow().get(&key).cloned()))
            }
            CallAction::Resolve(request) => CallEvent::Resolved(resolver.resolve(ctx, spec, &request)),
            CallAction::Sleep(_) => CallEvent::Slept,
            CallAction::ResolveFallback(request) => {
                let route = spec.on_error.as_ref().unwrap().route.clone();
                let fallback = FallbackContext { route: &route, request: &request };
                CallEvent::FallbackResolved(resolver.resolve_fallback(ctx, spec, &fallback))
            }
            CallAction::Store(key, value) => {
                store.unwrap().insert(&key, value);
                CallEvent::Stored(Ok(()))
            }
            CallAction::Finish(result) => return result,
            CallAction::Halt => panic!("a mapped path runs through a value that is not an object"),
        };
        action = run.step(ctx, spec, templates, "n02", event, DeadlineStatus::Unbounded);
    }
}

enum Action {
    Response(ResolverResponse),
    Error(ResolverError),
}

struct ScriptedResolver {
    sequence: RefCell<Vec<Action>>,
    fallback_sequence: RefCell<Vec<Action>>,
    calls: RefCell<Vec<CallRequest>>,
    fallback_calls: RefCell<Vec<CallRequest>>,
}

impl ScriptedResolver {
    fn new(mut actions: Vec<Action>) -> Self {
        actions.reverse();
        Self {
            sequence: RefCell::new(actions),
            fallback_sequence: RefCell::new(Vec::new()),
            calls: RefCell::new(Vec::new()),
            fallback_calls: RefCell::new(Vec::new()),
        }
    }

    fn with_fallback(self, mut actions: Vec<Action>) -> Self {
        actions.reverse();
        *self.fallback_sequence.borrow_mut() = actions;
        self
    }
}

impl Resolver for ScriptedResolver {
    fn resolve(&self, _ctx: &Ctx, _spec: &CallSpec, request: &CallRequest) -> Result<ResolverResponse, ResolverError> {
        self.calls.borrow_mut().push(request.clone());
        match self.sequence.borrow_mut().pop() {
            Some(Action::Response(r)) => Ok(r),
            Some(Action::Error(e)) => Err(e),
            None => panic!("no scripted action remaining"),
        }
    }

    fn resolve_fallback(&self, _ctx: &Ctx, _spec: &CallSpec, fallback: &FallbackContext<'_>) -> Result<ResolverResponse, ResolverError> {
        self.fallback_calls.borrow_mut().push(fallback.request.clone());
        match self.fallback_sequence.borrow_mut().pop() {
            Some(Action::Response(r)) => Ok(r),
            Some(Action::Error(e)) => Err(e),
            None => panic!("no fallback action scripted"),
        }
    }
}

#[test]
fn runtime_validates_definition() {
    let definition = FlowDefinition::new(
        "broken",
        1,
        vec![FlowStep::new("step", "duplicate id"), FlowStep::new("step", "again")],
    );
    let result = FlowRuntime::from_definition(definition);
    assert!(matches!(result, Err(FlowValidationError::DuplicateStepId(id)) if id == "step"));
}

#[test]
fn runtime_executes_steps() {
    let runtime = runtime_from_steps("weather", 1, &[("fetch", "Fetch data"), ("render", "Render output")])
        .expect("valid runtime");
    let outcome = runtime.execute("payload");
    assert!(outcome.succeeded);
    assert_eq!(outcome.trace.len(), 2);
    assert_eq!(outcome.flow_name, "weather");
    assert_eq!(outcome.summary(), "weather: 2 steps (success=true)");
}

#[test]
fn legacy_helpers_still_work() {
    let runtime = runtime_from_steps("faq", 1, &[("lookup", "Fetch"), ("render", "Render")]).unwrap();
    assert!(is_idempotent(&runtime, "payload"));
    let outcome = runtime.execute("payload");
    assert!(has_unique_trace(&outcome));
}

#[test]
fn split_path_rejects_empty_segment() {
    assert!(matches!(split_path("a..b"), Err(StatePathError::EmptySegment)));
}

#[test]
fn split_path_rejects_empty_path_and_splits_segments() {
    assert!(matches!(split_path(""), Err(StatePathError::EmptyPath)));
    assert_eq!(split_path("a.b.c").unwrap(), vec!["a".to_string(), "b".to_string(), "c".to_string()]);
}

#[test]
fn set_and_get_state_path() {
    let mut ctx = Ctx::new(Meta::new(scope(), Some("channel".into()), "corr"));
    ctx.set_state_path("a.b.c", s("value")).unwrap();
    let fetched = ctx.get_from_state("a.b.c").unwrap();
    assert_eq!(fetched, &s("value"));
}

#[test]
fn state_write_replaces_and_keeps_neighbours() {
    let mut ctx = Ctx::new(meta());
    ctx.set_state_path("a.b", n(1)).unwrap();
    ctx.set_state_path("a.c", n(2)).unwrap();
    ctx.set_state_path("a.b", n(3)).unwrap();
    assert_eq!(ctx.get_from_state("a.b"), Some(&n(3)));
    assert_eq!(ctx.get_from_state("a.c"), Some(&n(2)));
    assert_eq!(ctx.get_from_state("a.d"), None);
    assert!(matches!(ctx.set_state_path("x..y", n(1)), Err(StatePathError::EmptySegment)));
}

#[test]
fn state_or_params_prefers_state() {
    let mut ctx = Ctx::new(meta()).with_params(obj(vec![("k", n(1)), ("p", n(5))]));
    ctx.set_state_path("k", n(2)).unwrap();
    assert_eq!(ctx.get_from_state_or_params("k"), Some(&n(2)));
    assert_eq!(ctx.get_from_state_or_params("p"), Some(&n(5)));
}

#[test]
fn permission_patterns() {
    let ctx = Ctx::new(meta()).with_permissions(vec!["flows.read".into(), "acme:ops".into()]);
    assert!(ctx.has_permission("flows.read"));
    assert!(!ctx.has_permission("flows.*"));
    assert!(ctx.has_permission_pattern("flows.*"));
    assert!(ctx.has_permission_pattern("*"));
    assert!(ctx.has_permission_pattern("*:ops"));
    assert!(!ctx.has_permission_pattern("other"));
}

#[test]
fn template_snapshot_shape() {
    let ctx = Ctx::new(meta()).with_params(obj(vec![("a", n(1))]));
    let snap = ctx.template_snapshot();
    assert_eq!(at(&snap, &["params", "a"]), Some(&n(1)));
    assert_eq!(at(&snap, &["meta", "correlation_id"]), Some(&s("corr-123")));
    assert_eq!(at(&snap, &["meta", "channel"]), Some(&s("channel")));
    assert_eq!(at(&snap, &["meta", "scope", "tenant"]), Some(&s("tenant")));
}

#[test]
fn exec_in_validates_and_applies_defaults() {
    let mut ctx = Ctx::new(meta())
        .with_params(obj(vec![("subject", s("weather")), ("optional", n(2))]))
        .with_permissions(vec!["flows.read".into()]);
    let spec = InSpec {
        intent: "flow.intent".into(),
        params: vec![
            ("optional".into(), ValidatorSpec { kind: ParamKind::Integer, required: false, description: None, default: Some(n(7)) }),
            ("subject".into(), validator(ParamKind::String, true)),
        ],
        router: None,
        visibility: vec![],
        allow: vec!["flows.read".into()],
    };
    exec_in("flow.intent", "n01", &mut ctx, &spec).expect("exec_in ok");
    assert_eq!(ctx.params.get("subject"), Some(&s("weather")));
    assert_eq!(ctx.params.get("optional"), Some(&n(2)));
}

#[test]
fn exec_in_fills_defaults_and_refuses_missing_or_wrong() {
    let spec = InSpec {
        intent: "i".into(),
        params: vec![
            ("count".into(), ValidatorSpec { kind: ParamKind::Integer, required: false, description: None, default: Some(n(7)) }),
            ("name".into(), validator(ParamKind::String, true)),
        ],
        router: None,
        visibility: vec![],
        allow: vec![],
    };
    let mut ctx = Ctx::new(meta()).with_params(obj(vec![("name", s("x")), ("extra", Json::Bool(true))]));
    exec_in("f", "n", &mut ctx, &spec).unwrap();
    assert_eq!(ctx.params.get("count"), Some(&n(7)));
    assert_eq!(ctx.params.get("extra"), Some(&Json::Bool(true)));

    let mut missing = Ctx::new(meta()).with_params(obj(vec![]));
    match exec_in("f", "n", &mut missing, &spec) {
        Err(ExecError::Validation(m)) => assert_eq!(m, "missing required param `name`"),
        other => panic!("unexpected {other:?}"),
    }

    let mut wrong = Ctx::new(meta()).with_params(obj(vec![("name", n(3))]));
    match exec_in("f", "n", &mut wrong, &spec) {
        Err(ExecError::Validation(m)) => assert_eq!(m, "value `name` expected String"),
        other => panic!("unexpected {other:?}"),
    }

    let mut not_object = Ctx::new(meta()).with_params(Json::Null);
    match exec_in("f", "n", &mut not_object, &spec) {
        Err(ExecError::Validation(m)) => assert_eq!(m, "inbound payload must be an object"),
        other => panic!("unexpected {other:?}"),
    }
}

#[test]
fn exec_in_rejects_missing_permission() {
    let mut ctx = Ctx::new(meta()).with_params(obj(vec![("subject", s("weather"))]));
    let spec = InSpec {
        intent: "flow.intent".into(),
        params: vec![("subject".into(), validator(ParamKind::String, true))],
        router: None,
        visibility: vec![],
        allow: vec!["flows.read".into()],
    };
    let err = exec_in("flow.intent", "n01", &mut ctx, &spec).unwrap_err();
    assert!(matches!(err, ExecError::PermissionDenied { .. }));
}

#[test]
fn exec_call_sync_success() {
    let resolver = ScriptedResolver::new(vec![Action::Response(ResolverResponse::Sync(obj(vec![("temp", n(20))])))]);
    let mut ctx = Ctx::new(meta()).with_params(obj(vec![("subject", s("weather"))])).with_state(Json::Null);
    let templates = TemplateEngine::new();
    let mut spec = call_spec("component.weather");
    spec.params_map = vec![("payload.subject".into(), "{{ params.subject }}".into())];
    let outcome = run_call(&mut ctx, &spec, &resolver, None, &templates).expect("call success");
    assert_eq!(outcome.value, obj(vec![("temp", n(20))]));
    let requests = resolver.calls.borrow();
    assert_eq!(requests.len(), 1);
    assert_eq!(at(&requests[0].params, &["payload", "subject"]), Some(&s("weather")));
    assert_eq!(at(&ctx.state, &["result", "temp"]), Some(&n(20)));
}

#[test]
fn exec_call_retries_then_succeeds() {
    let resolver = ScriptedResolver::new(vec![
        Action::Error(ResolverError::timeout("timeout")),
        Action::Response(ResolverResponse::Sync(obj(vec![("ok", Json::Bool(true))]))),
    ]);
    let mut ctx = Ctx::new(meta()).with_params(obj(vec![("subject", s("weather"))]));
    let templates = TemplateEngine::new();
    let mut spec = call_spec("component.weather");
    spec.retry = Some(RetrySpec { attempts: 3, delay_ms: Some(0), max_delay_ms: Some(0) });
    let outcome = run_call(&mut ctx, &spec, &resolver, None, &templates).expect("call success");
    assert_eq!(outcome.attempts, 2);
}

#[test]
fn exec_call_async_ack() {
    let resolver = ScriptedResolver::new(vec![Action::Response(ResolverResponse::AsyncAck(obj(vec![("ticket", s("123"))])))]);
    let mut ctx = Ctx::new(meta());
    let templates = TemplateEngine::new();
    let mut spec = call_spec("component.weather");
    spec.mode = CallMode::Async;
    let outcome = run_call(&mut ctx, &spec, &resolver, None, &templates).expect("call success");
    assert_eq!(outcome.value.get("ticket"), Some(&s("123")));
}

#[test]
fn exec_call_fanout_join_all() {
    let resolver = ScriptedResolver::new(vec![Action::Response(ResolverResponse::Fanout(vec![
        obj(vec![("node", s("a"))]),
        obj(vec![("node", s("b"))]),
    ]))]);
    let mut ctx = Ctx::new(meta());
    let templates = TemplateEngine::new();
    let mut spec = call_spec("component.weather");
    spec.join = Some(JoinSpec { with: vec!["a".into(), "b".into()], strategy: Some(JoinStrategy::All) });
    let outcome = run_call(&mut ctx, &spec, &resolver, None, &templates).expect("call success");
    assert_eq!(outcome.value, Json::Array(vec![obj(vec![("node", s("a"))]), obj(vec![("node", s("b"))])]));
    assert!(outcome.fanout.is_some());
}

#[test]
fn exec_call_fanout_join_any() {
    let resolver = ScriptedResolver::new(vec![Action::Response(ResolverResponse::Fanout(vec![
        Json::Null,
        obj(vec![("node", s("b"))]),
    ]))]);
    let mut ctx = Ctx::new(meta());
    let templates = TemplateEngine::new();
    let mut spec = call_spec("component.weather");
    spec.join = Some(JoinSpec { with: vec!["a".into(), "b".into()], strategy: Some(JoinStrategy::Any) });
    let outcome = run_call(&mut ctx, &spec, &resolver, None, &templates).expect("call success");
    assert_eq!(outcome.value, obj(vec![("node", s("b"))]));
}

#[test]
fn join_any_of_nulls_is_null() {
    let resolver = ScriptedResolver::new(vec![Action::Response(ResolverResponse::Fanout(vec![Json::Null, Json::Null]))]);
    let mut ctx = Ctx::new(meta());
    let templates = TemplateEngine::new();
    let mut spec = call_spec("c");
    spec.join = Some(JoinSpec { with: vec!["a".into()], strategy: Some(JoinStrategy::Any) });
    let outcome = run_call(&mut ctx, &spec, &resolver, None, &templates).unwrap();
    assert_eq!(outcome.value, Json::Null);
}

#[test]
fn exec_call_timeout_then_fallback() {
    let resolver = ScriptedResolver::new(vec![Action::Error(ResolverError::timeout("timeout"))])
        .with_fallback(vec![Action::Response(ResolverResponse::Sync(obj(vec![("fallback", Json::Bool(true))])))]);
    let mut ctx = Ctx::new(meta());
    let templates = TemplateEngine::new();
    let mut spec = call_spec("component.weather");
    spec.timeout_ms = Some(10);
    spec.retry = Some(RetrySpec { attempts: 1, delay_ms: Some(0), max_delay_ms: Some(0) });
    spec.on_error = Some(OnErrorSpec { route: "fallback".into(), mapper: Some("{\"reason\": \"timeout\"}".into()) });
    let outcome = run_call(&mut ctx, &spec, &resolver, None, &templates).expect("fallback success");
    assert!(outcome.fallback_used);
    let fallback_requests = resolver.fallback_calls.borrow();
    assert_eq!(fallback_requests.len(), 1);
    assert_eq!(fallback_requests[0].params.get("reason"), Some(&s("timeout")));
}

#[test]
fn exec_call_scope_mismatch() {
    let resolver = ScriptedResolver::new(vec![Action::Response(ResolverResponse::Sync(Json::Null))]);
    let mut ctx = Ctx::new(meta());
    let templates = TemplateEngine::new();
    let mut spec = call_spec("component.weather");
    spec.scope = Some(Scope { tenant: "other".into(), team: None, user: None });
    let err = run_call(&mut ctx, &spec, &resolver, None, &templates).unwrap_err();
    assert!(matches!(err, ExecError::ScopeMismatch { .. }));
}

#[test]
fn exec_call_idempotent_replay() {
    let store = MemoryStore::default();
    store.insert("key-1", obj(vec![("cached", Json::Bool(true))]));
    let resolver = ScriptedResolver::new(vec![]);
    let mut ctx = Ctx::new(meta()).with_params(Json::Null).with_idempotency_key(Some("key-1".into()));
    let templates = TemplateEngine::new();
    let spec = call_spec("component.weather");
    let outcome = run_call(&mut ctx, &spec, &resolver, Some(&store), &templates).expect("replay success");
    assert!(outcome.idempotent_replay);
    assert_eq!(outcome.value.get("cached"), Some(&Json::Bool(true)));
}

#[test]
fn exec_call_failure_without_fallback_is_resolver_error() {
    let resolver = ScriptedResolver::new(vec![Action::Error(ResolverError::fatal("boom"))]);
    let mut ctx = Ctx::new(meta());
    let templates = TemplateEngine::new();
    let mut spec = call_spec("c");
    spec.retry = Some(RetrySpec { attempts: 5, delay_ms: Some(0), max_delay_ms: None });
    let err = run_call(&mut ctx, &spec, &resolver, None, &templates).unwrap_err();
    match err {
        ExecError::Resolver { source } => assert_eq!(source.kind, ResolverErrorKind::Fatal),
        other => panic!("unexpected {other:?}"),
    }
    assert_eq!(resolver.calls.borrow().len(), 1);
}

#[test]
fn exec_out_validates_returns() {
    let mut ctx = Ctx::new(meta());
    ctx.set_state_path("output.status", s("ok")).unwrap();
    let spec = OutSpec { returns: vec![("output.status".into(), validator(ParamKind::String, true))], docs: None };
    let result = exec_out("flow.intent", "n03", &ctx, &spec).expect("out success");
    assert_eq!(result.get("output.status"), Some(&s("ok")));
}

#[test]
fn exec_out_refuses_missing_required_return() {
    let ctx = Ctx::new(meta());
    let spec = OutSpec { returns: vec![("missing".into(), validator(ParamKind::String, true))], docs: None };
    match exec_out("f", "n", &ctx, &spec) {
        Err(ExecError::Validation(m)) => assert_eq!(m, "missing required return `missing`"),
        other => panic!("unexpected {other:?}"),
    }
}

#[test]
fn retry_delays_double_up_to_the_cap() {
    assert_eq!(compute_next_delay(0, None), 100);
    assert_eq!(compute_next_delay(100, None), 200);
    assert_eq!(compute_next_delay(300, Some(500)), 500);
    assert_eq!(compute_next_delay(0, Some(50)), 50);
    assert_eq!(compute_next_delay(u64::MAX, None), u64::MAX);
}

#[test]
fn timeout_is_the_shorter_bound() {
    assert_eq!(compute_timeout(DeadlineStatus::Unbounded, None, "n").unwrap(), None);
    assert_eq!(compute_timeout(DeadlineStatus::Unbounded, Some(10), "n").unwrap(), Some(10_000_000));
    assert_eq!(compute_timeout(DeadlineStatus::Remaining(5), Some(10), "n").unwrap(), Some(5));
    assert_eq!(compute_timeout(DeadlineStatus::Remaining(50_000_000), Some(10), "n").unwrap(), Some(10_000_000));
    assert!(matches!(compute_timeout(DeadlineStatus::Passed, Some(10), "n"), Err(ExecError::DeadlineExceeded { .. })));
}

fn conformance_scope(tenant: &str, team: Option<&str>, user: Option<&str>) -> Scope {
    Scope { tenant: tenant.into(), team: team.map(|s| s.into()), user: user.map(|s| s.into()) }
}

fn new_ctx(scope: Scope, params: Json) -> Ctx {
    let meta = Meta::new(scope.clone(), None, "corr-test");
    let mut ctx = Ctx::new(meta).with_params(params);
    ctx.add_permission(&scope.tenant);
    if let Some(team) = &scope.team {
        ctx.add_permission(&format!("{}:{}", scope.tenant, team));
    }
    if let Some(user) = &scope.user {
        ctx.add_permission(&format!("{}::{}", scope.tenant, user));
    }
    ctx
}

struct CountingResolver {
    calls: RefCell<u64>,
}

impl Resolver for CountingResolver {
    fn resolve(&self, _ctx: &Ctx, _spec: &CallSpec, _request: &CallRequest) -> Result<ResolverResponse, ResolverError> {
        *self.calls.borrow_mut() += 1;
        Ok(ResolverResponse::Sync(obj(vec![("value", n(*self.calls.borrow()))])))
    }
}

#[test]
fn idempotency_uses_store_cache() {
    let scope = conformance_scope("acme", Some("ops"), None);
    let mut ctx = new_ctx(scope, obj(vec![("location", s("NYC"))]));
    ctx.idempotency_key = Some("key-1".into());
    let spec = call_spec("component.weather");
    let resolver = CountingResolver { calls: RefCell::new(0) };
    let store = MemoryStore::default();
    let templates = TemplateEngine::default();

    let outcome = run_call(&mut ctx, &spec, &resolver, Some(&store), &templates).unwrap();
    assert_eq!(*resolver.calls.borrow(), 1);
    assert_eq!(outcome.value.get("value"), Some(&n(1)));
    assert!(!outcome.idempotent_replay);

    let cached = run_call(&mut ctx, &spec, &resolver, Some(&store), &templates).unwrap();
    assert_eq!(*resolver.calls.borrow(), 1, "resolver not invoked on replay");
    assert!(cached.idempotent_replay);

    ctx.idempotency_key = Some("key-2".into());
    let fresh = run_call(&mut ctx, &spec, &resolver, Some(&store), &templates).unwrap();
    assert_eq!(*resolver.calls.borrow(), 2);
    assert_eq!(fresh.value.get("value"), Some(&n(2)));
}

struct RecordingResolver {
    response: Json,
    requests: RefCell<Vec<CallRequest>>,
}

impl Resolver for RecordingResolver {
    fn resolve(&self, _ctx: &Ctx, spec: &CallSpec, request: &CallRequest) -> Result<ResolverResponse, ResolverError> {
        self.requests.borrow_mut().push(request.clone());
        if spec.mode == CallMode::Sync {
            Ok(ResolverResponse::Sync(self.response.clone()))
        } else {
            Ok(ResolverResponse::AsyncAck(self.response.clone()))
        }
    }
}

#[test]
fn params_and_result_mapping_apply_defaults() {
    let scope = conformance_scope("acme", None, None);
    let mut ctx = new_ctx(scope, obj(vec![("location", s("Seattle"))]));
    ctx.ensure_state_object();
    let mut spec = call_spec("component.weather");
    spec.params_map = vec![
        ("payload.city".into(), "{{ params.location }}".into()),
        ("payload.country".into(), "{{ params.country | default('US') }}".into()),
    ];
    spec.result_map = vec![
        ("weather.summary".into(), "{{ result.payload.summary | default('n/a') }}".into()),
        ("weather.temp_c".into(), "{{ result.payload.temp_c }}".into()),
    ];
    let resolver = RecordingResolver {
        response: obj(vec![("payload", obj(vec![("summary", s("Sunny")), ("temp_c", n(21))]))]),
        requests: RefCell::new(Vec::new()),
    };
    let templates = TemplateEngine::default();
    let outcome = run_call(&mut ctx, &spec, &resolver, None, &templates).unwrap();
    assert_eq!(at(&outcome.value, &["payload", "summary"]), Some(&s("Sunny")));
    let reqs = resolver.requests.borrow();
    assert_eq!(reqs.len(), 1);
    assert_eq!(at(&reqs[0].params, &["payload", "city"]), Some(&s("Seattle")));
    assert_eq!(at(&reqs[0].params, &["payload", "country"]), Some(&s("US")));
    assert_eq!(ctx.get_from_state("weather.summary").unwrap(), &s("Sunny"));
    assert_eq!(ctx.get_from_state("weather.temp_c").unwrap(), &n(21));
}

struct RetryResolver {
    failures_remaining: RefCell<u32>,
    calls: RefCell<u32>,
}

impl Resolver for RetryResolver {
    fn resolve(&self, _ctx: &Ctx, _spec: &CallSpec, _request: &CallRequest) -> Result<ResolverResponse, ResolverError> {
        *self.calls.borrow_mut() += 1;
        let mut remaining = self.failures_remaining.borrow_mut();
        if *remaining > 0 {
            *remaining -= 1;
            Err(ResolverError::timeout("transient"))
        } else {
            Ok(ResolverResponse::Sync(obj(vec![("payload", obj(vec![("ok", Json::Bool(true))]))])))
        }
    }
}

struct FallbackResolver {
    fallback_requests: RefCell<Vec<CallRequest>>,
}

impl Resolver for FallbackResolver {
    fn resolve(&self, _ctx: &Ctx, _spec: &CallSpec, _request: &CallRequest) -> Result<ResolverResponse, ResolverError> {
        Err(ResolverError::timeout("downstream timeout"))
    }

    fn resolve_fallback(&self, _ctx: &Ctx, _spec: &CallSpec, fallback: &FallbackContext<'_>) -> Result<ResolverResponse, ResolverError> {
        self.fallback_requests.borrow_mut().push(fallback.request.clone());
        Ok(ResolverResponse::Sync(obj(vec![("payload", obj(vec![("fallback", Json::Bool(true))]))])))
    }
}

#[test]
fn retry_and_fallback_behaviour() {
    let scope = conformance_scope("acme", None, None);
    let mut ctx = new_ctx(scope.clone(), obj(vec![("location", s("Rome"))]));
    let mut spec = call_spec("component.weather");
    spec.retry = Some(RetrySpec { attempts: 3, delay_ms: Some(0), max_delay_ms: Some(0) });
    let retry_resolver = RetryResolver { failures_remaining: RefCell::new(2), calls: RefCell::new(0) };
    let templates = TemplateEngine::default();
    let outcome = run_call(&mut ctx, &spec, &retry_resolver, None, &templates).unwrap();
    assert_eq!(*retry_resolver.calls.borrow(), 3);
    assert_eq!(outcome.attempts, 3);
    assert!(!outcome.fallback_used);

    let mut ctx_fb = new_ctx(scope, obj(vec![("location", s("Berlin"))]));
    let mut spec_fb = call_spec("component.weather");
    spec_fb.retry = Some(RetrySpec { attempts: 1, delay_ms: Some(0), max_delay_ms: Some(0) });
    spec_fb.on_error = Some(OnErrorSpec {
        route: "flows.fallback".into(),
        mapper: Some("{\"reason\": \"{{ error.kind }}\"}".into()),
    });
    let fb_resolver = FallbackResolver { fallback_requests: RefCell::new(Vec::new()) };
    let outcome_fb = run_call(&mut ctx_fb, &spec_fb, &fb_resolver, None, &templates).unwrap();
    assert!(outcome_fb.fallback_used);
    let fallback_requests = fb_resolver.fallback_requests.borrow();
    assert_eq!(fallback_requests.len(), 1);
    assert_eq!(fallback_requests[0].params.get("reason"), Some(&s("Timeout")));
}

#[test]
fn default_fallback_is_unsupported() {
    let resolver = CountingResolver { calls: RefCell::new(0) };
    let ctx = Ctx::new(meta());
    let spec = call_spec("c");
    let request = CallRequest { params: Json::Null, timeout: None, attempt: 1 };
    let err = resolver
        .resolve_fallback(&ctx, &spec, &FallbackContext { route: "r", request: &request })
        .unwrap_err();
    assert_eq!(err.kind, ResolverErrorKind::Fatal);
    assert_eq!(err.message, "resolver does not support fallback");
    assert!(ResolverError::retryable("x").is_retryable());
    assert!(ResolverError::timeout("x").is_retryable());
    assert!(!ResolverError::rejected("x").is_retryable());
}

#[test]
fn template_renders_json_or_text() {
    let templates = TemplateEngine::new();
    let data = obj(vec![("a", n(3))]);
    assert_eq!(templates.render_with_data("{{ a }}", &data).unwrap(), n(3));
    assert_eq!(templates.render_with_data("x{{ a }}", &data).unwrap(), s("x3"));
    assert!(templates.render_with_data("{{ a ", &data).is_err());
}
