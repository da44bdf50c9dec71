use std::cell::RefCell;

use flow2flow::contract::{CallMode, CallSpec, ParamKind, Scope, ValidatorSpec};
use flow2flow::ctx::{Ctx, Meta};
use flow2flow::executors::{CallAction, CallEvent, CallRun, DeadlineStatus};
use flow2flow::json::Json;
use flow2flow::registry::{select_version, InMemoryRegistry, Registry, VersionedRecord};
use flow2flow::resolver::{CallRequest, Resolver, ResolverErrorKind};
use flow2flow::router::{can_call, parse_version_req, split_target, FlowScopeRef, RouterAdapter};
use flow2flow::scope::{fallback_order, ScopeKey};
use flow2flow::signature::{decls_value, AdapterError, FlowRecord, FlowSignature};
use flow2flow::templating::TemplateEngine;
use flow2flow::versions::{SemVer, VersionRequirement};

fn scope(tenant: &str, team: Option<&str>, user: Option<&str>) -> Scope {
    Scope { tenant: tenant.into(), team: team.map(|s| s.into()), user: user.map(|s| s.into()) }
}

fn sample_signature(flow_id: &str, version: &str) -> FlowSignature {
    FlowSignature {
        flow_id: flow_id.into(),
        version: SemVer::parse(version).unwrap(),
        intent: format!("{flow_id}.in"),
        allow: vec![],
        params: vec![],
        returns: vec![],
    }
}

fn empty_object() -> Json {
    Json::Object(vec![])
}

#[test]
fn registration_round_trip() {
    let mut adapter = RouterAdapter::new(InMemoryRegistry::new());
    let signature = sample_signature("flow.weather", "1.0.0");
    let path = adapter
        .register_flow_signature(FlowScopeRef::Scoped(&scope("acme", Some("team"), None)), signature, empty_object())
        .expect("register");
    assert_eq!(path, "/tenants/acme/teams/team/flows/flow.weather@1");
    let versions = adapter.registry().versions_for(
        &ScopeKey::with_parts(Some("acme".into()), Some("team".into()), None),
        "flow.weather",
    );
    assert_eq!(versions.len(), 1);
    assert_eq!(versions[0].version, SemVer::parse("1.0.0").unwrap());
}

#[test]
fn scoped_resolution_precedence() {
    let mut adapter = RouterAdapter::new(InMemoryRegistry::new());
    adapter.register_flow_signature(FlowScopeRef::Global, sample_signature("flow.weather", "1.0.0"), empty_object()).unwrap();
    adapter
        .register_flow_signature(FlowScopeRef::Scoped(&scope("acme", None, None)), sample_signature("flow.weather", "1.1.0"), empty_object())
        .unwrap();
    adapter
        .register_flow_signature(FlowScopeRef::Scoped(&scope("acme", Some("team"), None)), sample_signature("flow.weather", "1.2.0"), empty_object())
        .unwrap();
    let resolved = adapter
        .resolve_signature("flow.weather", None, &scope("acme", Some("team"), Some("user")))
        .unwrap()
        .unwrap();
    assert_eq!(resolved.signature.version, SemVer::parse("1.2.0").unwrap());
}

#[test]
fn version_resolution_exact_and_major() {
    let mut adapter = RouterAdapter::new(InMemoryRegistry::new());
    for v in ["1.0.0", "1.3.0", "2.1.0"] {
        adapter.register_flow_signature(FlowScopeRef::Global, sample_signature("flow.weather", v), empty_object()).unwrap();
    }
    let req_major = adapter.resolve_signature("flow.weather", Some("1"), &scope("acme", None, None)).unwrap().unwrap();
    assert_eq!(req_major.signature.version, SemVer::parse("1.3.0").unwrap());
    let req_exact = adapter.resolve_signature("flow.weather", Some("=2.1.0"), &scope("acme", None, None)).unwrap().unwrap();
    assert_eq!(req_exact.signature.version, SemVer::parse("2.1.0").unwrap());
    let req_latest = adapter.resolve_signature("flow.weather", None, &scope("acme", None, None)).unwrap().unwrap();
    assert_eq!(req_latest.signature.version, SemVer::parse("2.1.0").unwrap());
}

#[test]
fn can_call_respects_allow() {
    let scope = scope("acme", Some("team"), Some("user"));
    assert!(can_call("caller", &["*".into()], &scope));
    assert!(can_call("caller", &["acme:team".into()], &scope));
    assert!(!can_call("caller", &["other".into()], &scope));
}

#[test]
fn acl_allow_and_deny_matrix() {
    let tenant_scope = scope("acme", None, None);
    let team_scope = scope("acme", Some("ops"), None);
    let user_scope = scope("acme", Some("ops"), Some("bob"));
    let other_scope = scope("other", Some("ops"), None);
    assert!(can_call("caller", &["*".into()], &tenant_scope));
    assert!(can_call("caller", &["acme".into()], &team_scope));
    assert!(can_call("caller", &["acme:ops".into()], &team_scope));
    assert!(can_call("caller", &["acme:ops:bob".into()], &user_scope));
    assert!(!can_call("caller", &["acme:ops:bob".into()], &team_scope));
    assert!(!can_call("caller", &["acme".into()], &other_scope));
}

#[test]
fn can_call_with_empty_allow_and_wildcards() {
    let sc = scope("acme", None, Some("bob"));
    assert!(can_call("c", &[], &sc));
    assert!(can_call("c", &["acme::*".into()], &sc));
    assert!(can_call("c", &["ac*".into()], &sc));
    assert!(!can_call("c", &["acme:*".into()], &scope("acme", None, None)));
}

#[test]
fn trailing_wildcard_entries_admit_continuations() {
    assert!(flow2flow::pattern::pattern_matches("connector.weather.*", "connector.weather.get"));
    assert!(flow2flow::pattern::pattern_matches("a*c", "abbbc"));
    assert!(!flow2flow::pattern::pattern_matches("a*c", "abd"));
    assert!(flow2flow::pattern::pattern_matches("", ""));
    assert!(!flow2flow::pattern::pattern_matches("", "x"));
}

fn conformance_signature(flow_id: &str, allow: &[&str], major: u64) -> FlowSignature {
    FlowSignature {
        flow_id: flow_id.into(),
        version: SemVer::new(major, 0, 0),
        intent: format!("{flow_id}.in"),
        allow: allow.iter().map(|s| s.to_string()).collect(),
        params: vec![(
            "location".to_string(),
            ValidatorSpec { kind: ParamKind::String, required: true, description: Some("Location identifier".into()), default: None },
        )],
        returns: vec![(
            "payload".to_string(),
            ValidatorSpec { kind: ParamKind::Object, required: true, description: Some("Response payload".into()), default: None },
        )],
    }
}

#[test]
fn scope_resolution_precedence() {
    let mut adapter = RouterAdapter::new(InMemoryRegistry::new());
    let global_sig = conformance_signature("assistant.weather.daily", &["*"], 1);
    let schema = decls_value(&global_sig.returns);
    adapter.register_flow_signature(FlowScopeRef::Global, global_sig, schema).unwrap();
    let tenant_scope = scope("acme", None, None);
    let team_scope = scope("acme", Some("sales"), None);
    let user_scope = scope("acme", Some("sales"), Some("alice"));
    for (sc, allow) in [(&tenant_scope, "acme"), (&team_scope, "acme:sales"), (&user_scope, "acme:sales:alice")] {
        let sig = conformance_signature("assistant.weather.daily", &[allow], 1);
        let schema = decls_value(&sig.returns);
        adapter.register_flow_signature(FlowScopeRef::Scoped(sc), sig, schema).expect("registration");
    }
    let resolved_team = adapter.resolve_signature("assistant.weather.daily", None, &team_scope).unwrap().unwrap();
    assert_eq!(resolved_team.path, "/tenants/acme/teams/sales/flows/assistant.weather.daily@1");
    let resolved_user = adapter.resolve_signature("assistant.weather.daily", None, &user_scope).unwrap().unwrap();
    assert_eq!(resolved_user.path, "/tenants/acme/teams/sales/users/alice/flows/assistant.weather.daily@1");
    assert_eq!(resolved_user.signature.allow, vec!["acme:sales:alice".to_string()]);
}

#[test]
fn router_adapter_resolves_scoped_signature() {
    let mut adapter = RouterAdapter::new(InMemoryRegistry::new());
    let tenant_scope = scope("acme", None, None);
    let team_scope = scope("acme", Some("sales-na"), None);
    let tenant_signature = conformance_signature("assistant.weather.daily", &["acme"], 1);
    let team_signature = conformance_signature("assistant.weather.daily", &["acme:sales-na"], 1);
    let tenant_allow = tenant_signature.allow.clone();
    let team_allow = team_signature.allow.clone();
    let schema = decls_value(&tenant_signature.returns);
    adapter.register_flow_signature(FlowScopeRef::Scoped(&tenant_scope), tenant_signature, schema.clone()).expect("tenant registration");
    adapter.register_flow_signature(FlowScopeRef::Scoped(&team_scope), team_signature, schema).expect("team registration");
    let resolved = adapter
        .resolve_signature("assistant.weather.daily", None, &team_scope)
        .expect("resolve")
        .expect("signature present");
    assert_eq!(resolved.signature.intent, format!("{}.in", "assistant.weather.daily"));
    assert_eq!(resolved.signature.allow, team_allow);
    assert!(resolved.path.contains("sales-na"));
    assert!(can_call("assistant.shell", &team_allow, &team_scope));
    assert!(can_call("assistant.shell", &tenant_allow, &tenant_scope));
    assert!(!can_call("assistant.shell", &team_allow, &tenant_scope));

    let meta = Meta::new(team_scope.clone(), None, "corr-123");
    let mut ctx = Ctx::new(meta).with_params(Json::Object(vec![("location".into(), Json::String("NYC".into()))]));
    let call_spec = CallSpec {
        target: "assistant.weather.daily".into(),
        mode: CallMode::Sync,
        timeout_ms: None,
        retry: None,
        params_map: vec![],
        result_map: vec![],
        on_error: None,
        join: None,
        scope: None,
    };
    let templates = TemplateEngine::default();
    let (mut run, mut action) = CallRun::start(&ctx, &call_spec, &templates, "resolve", false, false, DeadlineStatus::Unbounded);
    let outcome = loop {
        let event = match action {
            CallAction::Resolve(request) => CallEvent::Resolved(adapter.resolve(&ctx, &call_spec, &request)),
            CallAction::Finish(result) => break result.expect("exec_call"),
            other => panic!("unexpected action {other:?}"),
        };
        action = run.step(&mut ctx, &call_spec, &templates, "resolve", event, DeadlineStatus::Unbounded);
    };
    assert_eq!(outcome.value.get("flow_id"), Some(&Json::String("assistant.weather.daily".into())));
    assert_eq!(outcome.value.get("intent"), Some(&Json::String("assistant.weather.daily.in".into())));
    assert_eq!(outcome.value.get("version"), Some(&Json::String("1.0.0".into())));
}

#[test]
fn resolving_an_unknown_flow_is_fatal() {
    let adapter = RouterAdapter::new(InMemoryRegistry::new());
    let ctx = Ctx::new(Meta::new(scope("acme", None, None), None, "c"));
    let spec = CallSpec {
        target: "nothing@1".into(),
        mode: CallMode::Sync,
        timeout_ms: None,
        retry: None,
        params_map: vec![],
        result_map: vec![],
        on_error: None,
        join: None,
        scope: None,
    };
    let request = CallRequest { params: Json::Null, timeout: None, attempt: 1 };
    let err = adapter.resolve(&ctx, &spec, &request).unwrap_err();
    assert_eq!(err.message, "no flow `nothing` found for scope acme");
    assert_eq!(err.kind, ResolverErrorKind::Fatal);

    let bad = CallSpec { target: "nothing@bogus".into(), ..spec };
    let err = adapter.resolve(&ctx, &bad, &request).unwrap_err();
    assert_eq!(err.kind, ResolverErrorKind::Fatal);
    assert!(err.message.starts_with("invalid version requirement `bogus`: "));
}

#[test]
fn split_target_and_version_hints() {
    assert_eq!(split_target("flow@1.2"), ("flow".to_string(), Some("1.2".to_string())));
    assert_eq!(split_target("flow"), ("flow".to_string(), None));
    assert_eq!(split_target("a@b@c"), ("a".to_string(), Some("b".to_string())));
    assert_eq!(parse_version_req("1").unwrap().as_text(), "1");
    assert_eq!(parse_version_req("=2.1.0").unwrap().as_text(), "=2.1.0");
    assert!(matches!(parse_version_req("not a version"), Err(AdapterError::VersionReq { .. })));
}

#[test]
fn register_replaces_same_version_and_keeps_newest_first() {
    let mut registry = InMemoryRegistry::new();
    let key = ScopeKey::global();
    for v in ["1.0.0", "2.0.0", "1.5.0", "2.0.0"] {
        let sig = sample_signature("f", v);
        registry
            .register(&key, FlowRecord { signature: sig, returns_schema: Json::Null, path: format!("p{v}") })
            .unwrap();
    }
    let versions = registry.versions_for(&key, "f");
    let texts: Vec<String> = versions.iter().map(|r| r.version.to_text()).collect();
    assert_eq!(texts, vec!["2.0.0", "1.5.0", "1.0.0"]);
    registry.clear();
    assert!(registry.versions_for(&key, "f").is_empty());
}

#[test]
fn select_version_picks_highest_match() {
    let records: Vec<VersionedRecord> = ["1.0.0", "1.4.0", "2.0.0", "1.2.0"]
        .iter()
        .map(|v| VersionedRecord::new(FlowRecord { signature: sample_signature("f", v), returns_schema: Json::Null, path: String::new() }))
        .collect();
    let req = VersionRequirement::parse("^1").unwrap();
    let best = select_version(records.clone(), Some(&req)).unwrap();
    assert_eq!(best.version.to_text(), "1.4.0");
    let newest = select_version(records.clone(), None).unwrap();
    assert_eq!(newest.version.to_text(), "2.0.0");
    let none = VersionRequirement::parse("^3").unwrap();
    assert!(select_version(records, Some(&none)).is_none());
}

#[test]
fn semver_precedence_and_text() {
    let a = SemVer::parse("1.0.0-alpha").unwrap();
    let b = SemVer::parse("1.0.0").unwrap();
    assert!(a.precedes(&b));
    assert!(!b.precedes(&a));
    assert_eq!(a.to_text(), "1.0.0-alpha");
    assert_eq!(SemVer::parse("1.2.3+build.5").unwrap().to_text(), "1.2.3+build.5");
    assert!(SemVer::parse("1.2").is_none());
}

#[test]
fn fallback_order_most_specific_first() {
    let order = fallback_order(&scope("t", Some("a"), Some("u")));
    let prefixes: Vec<String> = order.iter().map(|k| k.path_prefix()).collect();
    assert_eq!(
        prefixes,
        vec!["/tenants/t/teams/a/users/u", "/tenants/t/teams/a", "/tenants/t/users/u", "/tenants/t", "/global"]
    );
}

#[test]
fn adapter_error_messages() {
    assert_eq!(
        AdapterError::MissingVersion { flow_id: "x".into() }.message(),
        "flow spec `x` missing version"
    );
    assert_eq!(AdapterError::registry("boom").message(), "registry error: boom");
    let err = parse_version_req("bogus").unwrap_err();
    assert!(err.message().starts_with("invalid version requirement `bogus`: "));
    let _ = RefCell::new(0);
}
