use flow2flow::cli::{
    apply_call_outcome, backend_supported, call_trace, caller_permissions, parse_params, run_summary, LocalRun, RunAction,
    StubResolver,
};
use flow2flow::contract::{
    keys_in_order, text_before,
    CallMode, CallSpec, FlowSpec, FlowValidationError, InSpec, NodeDef, OnErrorSpec, OutSpec, ParamKind,
    RetrySpec, Scope, ValidatorSpec,
};
use flow2flow::ctx::{Ctx, Meta};
use flow2flow::executors::CallOutcome;
use flow2flow::json::{Json, JsonNumber};
use flow2flow::loader::{digits, prepare_flow_text, prepare_flow_value, prepare_flow_yaml};
use flow2flow::resolver::{CallRequest, FallbackContext, Resolver, ResolverErrorKind, ResolverResponse};
use flow2flow::signature::{signature_from_spec, AdapterError};
use flow2flow::simple::{FlowDefinition, FlowStep};

#[test]
fn validation_succeeds_for_simple_flow() {
    let flow = FlowDefinition::new(
        "weather",
        1,
        vec![
            FlowStep::new("start", "Fetch latest weather data"),
            FlowStep::new("render", "Render summary for the client"),
        ],
    );
    assert!(flow.validate().is_ok());
}

#[test]
fn validation_fails_for_duplicate_steps() {
    let flow = FlowDefinition::new("dup-flow", 1, vec![FlowStep::new("step", "First"), FlowStep::new("step", "Duplicate")]);
    let result = flow.validate();
    assert_eq!(result, Err(FlowValidationError::DuplicateStepId("step".to_string())));
}

fn sample_flow() -> FlowSpec {
    FlowSpec {
        flow_id: "weather".to_string(),
        version: Some(1),
        nodes: vec![
            (
                "n01".to_string(),
                NodeDef::In {
                    spec: InSpec {
                        intent: "weather.fetch".to_string(),
                        params: vec![],
                        router: Some("greentic.weather".to_string()),
                        visibility: vec!["tenant".to_string()],
                        allow: vec!["weather.read".to_string()],
                    },
                },
            ),
            (
                "n02".to_string(),
                NodeDef::Call {
                    spec: CallSpec {
                        target: "weather-service".to_string(),
                        mode: CallMode::Sync,
                        timeout_ms: Some(1_000),
                        retry: Some(RetrySpec { attempts: 3, delay_ms: Some(200), max_delay_ms: Some(2_000) }),
                        params_map: vec![],
                        result_map: vec![],
                        on_error: Some(OnErrorSpec { route: "fallback".to_string(), mapper: None }),
                        join: None,
                        scope: Some(Scope { tenant: "acme".to_string(), team: Some("weather".to_string()), user: None }),
                    },
                },
            ),
            (
                "n03".to_string(),
                NodeDef::Out {
                    spec: OutSpec {
                        returns: vec![(
                            "payload".to_string(),
                            ValidatorSpec { kind: ParamKind::Object, required: true, description: None, default: None },
                        )],
                        docs: Some("Return formatted weather payload".to_string()),
                    },
                },
            ),
        ],
        errors: vec![],
    }
}

#[test]
fn sample_flow_validates() {
    let flow = sample_flow();
    assert!(flow.validate().is_ok());
}

#[test]
fn missing_in_node_fails_validation() {
    let mut flow = sample_flow();
    flow.nodes.remove(0);
    assert!(matches!(flow.validate(), Err(FlowValidationError::FirstNodeMustBeIn { .. })));
}

#[test]
fn signature_from_sample_flow() {
    let (sig, schema) = signature_from_spec(&sample_flow()).unwrap();
    assert_eq!(sig.flow_id, "weather");
    assert_eq!(sig.version.to_text(), "1.0.0");
    assert_eq!(sig.intent, "weather.fetch");
    assert_eq!(sig.allow, vec!["weather.read".to_string()]);
    assert_eq!(sig.registration_path_fragment(), "flows/weather@1");
    assert_eq!(
        schema,
        Json::Object(vec![(
            "payload".to_string(),
            Json::Object(vec![
                ("kind".to_string(), Json::String("object".to_string())),
                ("required".to_string(), Json::Bool(true)),
            ])
        )])
    );
    let mut unversioned = sample_flow();
    unversioned.version = None;
    assert!(matches!(signature_from_spec(&unversioned), Err(AdapterError::MissingVersion { .. })));
    let mut no_out = sample_flow();
    no_out.nodes.pop();
    assert!(matches!(signature_from_spec(&no_out), Err(AdapterError::MissingOutNode { .. })));
}

#[test]
fn digit_counts() {
    assert_eq!(digits(0), 1);
    assert_eq!(digits(9), 1);
    assert_eq!(digits(10), 2);
    assert_eq!(digits(12345), 5);
}

fn doc_with_nodes(count: usize) -> Json {
    Json::Object(vec![
        ("flow_id".to_string(), Json::String("demo".to_string())),
        ("nodes".to_string(), Json::Array((0..count).map(|i| Json::Number(JsonNumber::PosInt(i as u64))).collect())),
    ])
}

#[test]
fn array_nodes_get_keys() {
    let (value, deprecated) = prepare_flow_value(doc_with_nodes(2));
    assert!(deprecated);
    let nodes = value.get("nodes").unwrap();
    match nodes {
        Json::Object(entries) => {
            let keys: Vec<&str> = entries.iter().map(|(k, _)| k.as_str()).collect();
            assert_eq!(keys, vec!["n1", "n2"]);
        }
        other => panic!("unexpected {other:?}"),
    }
    let (value, _) = prepare_flow_value(doc_with_nodes(11));
    match value.get("nodes").unwrap() {
        Json::Object(entries) => {
            assert_eq!(entries[0].0, "n01");
            assert_eq!(entries[10].0, "n11");
        }
        other => panic!("unexpected {other:?}"),
    }
    let keyed = Json::Object(vec![("nodes".to_string(), Json::Object(vec![]))]);
    let (same, deprecated) = prepare_flow_value(keyed.clone());
    assert!(!deprecated);
    assert_eq!(same, keyed);
}

#[test]
fn cli_support() {
    assert!(backend_supported(None));
    assert!(backend_supported(Some("inmem")));
    assert!(!backend_supported(Some("http://registry")));
    let perms = caller_permissions(&Scope { tenant: "acme".into(), team: Some("ops".into()), user: Some("bob".into()) });
    assert_eq!(perms, vec!["acme".to_string(), "acme:ops".to_string(), "acme::bob".to_string()]);
    let spec = CallSpec {
        target: "weather".into(),
        mode: CallMode::Sync,
        timeout_ms: None,
        retry: None,
        params_map: vec![],
        result_map: vec![],
        on_error: None,
        join: None,
        scope: None,
    };
    let ctx = Ctx::new(Meta::new(Scope { tenant: "acme".into(), team: None, user: None }, None, "c"));
    let request = CallRequest { params: Json::Null, timeout: None, attempt: 1 };
    let stub = StubResolver {};
    let answer = match stub.resolve(&ctx, &spec, &request).unwrap() {
        ResolverResponse::Sync(v) => v,
        other => panic!("unexpected {other:?}"),
    };
    let payload = answer.get("payload").unwrap();
    assert_eq!(payload.get("target"), Some(&Json::String("weather".into())));
    assert_eq!(payload.get("mode"), Some(&Json::String("sync".into())));
    let outcome = CallOutcome::new(answer.clone(), 1, CallMode::Sync);
    let trace = call_trace("n02", &spec, &outcome);
    assert_eq!(trace.get("node"), Some(&Json::String("n02".into())));
    assert_eq!(trace.get("attempts"), Some(&Json::Number(JsonNumber::PosInt(1))));
    assert_eq!(trace.get("fanout"), Some(&Json::Null));
    let fallback = FallbackContext { route: "backup", request: &request };
    let err = stub.resolve_fallback(&ctx, &spec, &fallback).unwrap_err();
    assert_eq!(err.kind, ResolverErrorKind::Fatal);
    assert_eq!(err.message, "resolver does not support fallback");
}

#[test]
fn detects_deprecated_array_nodes() {
    let doc = Json::Object(vec![
        ("flow_id".to_string(), Json::String("demo".to_string())),
        (
            "nodes".to_string(),
            Json::Array(vec![
                Json::Object(vec![(
                    "f2f.in".to_string(),
                    Json::Object(vec![
                        ("intent".to_string(), Json::String("demo.intent".to_string())),
                        ("params".to_string(), Json::Object(vec![])),
                    ]),
                )]),
                Json::Object(vec![(
                    "f2f.out".to_string(),
                    Json::Object(vec![("returns".to_string(), Json::Object(vec![]))]),
                )]),
            ]),
        ),
    ]);
    let (value, deprecated) = prepare_flow_value(doc);
    assert!(deprecated);
    let names: Vec<String> = match value.get("nodes").unwrap() {
        Json::Object(entries) => entries.iter().map(|(k, _)| k.clone()).collect(),
        other => panic!("unexpected {other:?}"),
    };
    assert_eq!(names, vec!["n1".to_string(), "n2".to_string()]);
}

#[test]
fn legacy_nodes_upgrade_sets_flag() {
    let legacy = Json::Object(vec![
        ("flow_id".to_string(), Json::String("legacy".to_string())),
        (
            "nodes".to_string(),
            Json::Array(vec![
                Json::Object(vec![(
                    "f2f.in".to_string(),
                    Json::Object(vec![
                        ("intent".to_string(), Json::String("legacy.in".to_string())),
                        ("params".to_string(), Json::Object(vec![])),
                    ]),
                )]),
                Json::Object(vec![(
                    "f2f.out".to_string(),
                    Json::Object(vec![("returns".to_string(), Json::Object(vec![]))]),
                )]),
            ]),
        ),
    ]);
    let (value, deprecated) = prepare_flow_value(legacy);
    assert!(deprecated);
    let keys: Vec<String> = match value.get("nodes").unwrap() {
        Json::Object(entries) => entries.iter().map(|(k, _)| k.clone()).collect(),
        other => panic!("unexpected {other:?}"),
    };
    assert_eq!(keys, vec!["n1".to_string(), "n2".to_string()]);
}

#[test]
fn flow_text_is_read_and_upgraded() {
    let (value, deprecated) =
        prepare_flow_text(r#"{"flow_id":"demo","nodes":[{"f2f.in":{"intent":"i"}},{"f2f.out":{}}]}"#).unwrap();
    assert!(deprecated);
    match value.get("nodes").unwrap() {
        Json::Object(entries) => assert_eq!(entries.iter().map(|(k, _)| k.as_str()).collect::<Vec<_>>(), vec!["n1", "n2"]),
        other => panic!("unexpected {other:?}"),
    }
    assert!(prepare_flow_text("not json").is_none());
    let yaml = "flow_id: legacy\nnodes:\n  - f2f.in:\n      intent: legacy.in\n  - f2f.out:\n      returns: {}\n";
    let (value, deprecated) = prepare_flow_yaml(yaml).unwrap();
    assert!(deprecated);
    assert_eq!(value.get("flow_id"), Some(&Json::String("legacy".into())));
    assert!(prepare_flow_yaml("a: [unclosed").is_none());
}

#[test]
fn local_run_pieces() {
    assert_eq!(parse_params(r#"{"city":"Lisbon"}"#), Some(Json::Object(vec![("city".into(), Json::String("Lisbon".into()))])));
    assert!(parse_params("{").is_none());
    let spec = CallSpec {
        target: "weather".into(),
        mode: CallMode::Sync,
        timeout_ms: None,
        retry: None,
        params_map: vec![],
        result_map: vec![],
        on_error: None,
        join: None,
        scope: None,
    };
    let mut ctx = Ctx::new(Meta::new(Scope { tenant: "acme".into(), team: None, user: None }, None, "c"));
    let value = Json::Object(vec![("payload".into(), Json::String("p".into()))]);
    let outcome = CallOutcome::new(value, 1, CallMode::Sync);
    let mut calls = Vec::new();
    apply_call_outcome(&mut ctx, "n2", &spec, &outcome, &mut calls).unwrap();
    assert_eq!(ctx.get_from_state("payload"), Some(&Json::String("p".into())));
    assert_eq!(calls.len(), 1);
    let flow = FlowSpec { flow_id: "demo".into(), version: Some(2), nodes: vec![], errors: vec![] };
    let summary = run_summary(&flow, &calls, None);
    match &summary {
        Json::Object(entries) => assert_eq!(
            entries.iter().map(|(k, _)| k.as_str()).collect::<Vec<_>>(),
            vec!["calls", "flow_id", "result", "status", "version"]
        ),
        other => panic!("unexpected {other:?}"),
    }
    assert_eq!(summary.get("result"), Some(&Json::Null));
    assert_eq!(summary.get("version"), Some(&Json::Number(JsonNumber::PosInt(2))));
    assert_eq!(summary.get("status"), Some(&Json::String("ok".into())));
}

#[test]
fn key_order_of_flow_maps() {
    assert!(text_before("a", "b"));
    assert!(text_before("a", "ab"));
    assert!(!text_before("ab", "a"));
    assert!(!text_before("a", "a"));
    assert!(text_before("Z", "a"));
    assert!(text_before("n01", "n02"));
    assert!(sample_flow().keys_in_order());
    let mut swapped = sample_flow();
    swapped.nodes.swap(0, 2);
    assert!(!swapped.keys_in_order());
    let mut repeated = sample_flow();
    repeated.nodes[1].0 = "n01".to_string();
    assert!(!repeated.keys_in_order());
    let pairs: Vec<(String, String)> = vec![("b".into(), "x".into()), ("a".into(), "y".into())];
    assert!(!keys_in_order(&pairs));
}

#[test]
fn local_run_steps_through_the_flow() {
    let flow = sample_flow();
    let scope = Scope { tenant: "acme".into(), team: Some("weather".into()), user: None };
    let mut ctx = Ctx::new(Meta::new(scope, None, "c"))
        .with_params(Json::Object(vec![]))
        .with_permissions(vec!["weather.read".to_string()]);
    let mut run = LocalRun::new();
    assert!(matches!(run.step(&flow, &mut ctx), RunAction::Continue));
    let i = match run.step(&flow, &mut ctx) {
        RunAction::Call(i) => i,
        other => panic!("unexpected {other:?}"),
    };
    assert_eq!(i, 1);
    let call_spec = match &flow.nodes[i].1 {
        NodeDef::Call { spec } => spec.clone(),
        _ => unreachable!(),
    };
    let request = CallRequest { params: Json::Null, timeout: None, attempt: 1 };
    let answer = match (StubResolver {}).resolve(&ctx, &call_spec, &request).unwrap() {
        ResolverResponse::Sync(v) => v,
        other => panic!("unexpected {other:?}"),
    };
    let outcome = CallOutcome::new(answer, 1, CallMode::Sync);
    assert!(matches!(run.called(&flow, &mut ctx, &outcome), RunAction::Continue));
    assert!(ctx.get_from_state("payload").is_some());
    assert!(matches!(run.step(&flow, &mut ctx), RunAction::Continue));
    let report = match run.step(&flow, &mut ctx) {
        RunAction::Finish(Ok(j)) => j,
        other => panic!("unexpected {other:?}"),
    };
    assert_eq!(report.get("status"), Some(&Json::String("ok".into())));
    assert_eq!(report.get("flow_id"), Some(&Json::String("weather".into())));
    match report.get("calls") {
        Some(Json::Array(items)) => assert_eq!(items.len(), 1),
        other => panic!("unexpected {other:?}"),
    }
    assert!(report.get("result").unwrap().get("payload").is_some());

    let mut denied = Ctx::new(Meta::new(Scope { tenant: "acme".into(), team: None, user: None }, None, "c"));
    let mut run = LocalRun::new();
    assert!(matches!(run.step(&flow, &mut denied), RunAction::Finish(Err(_))));
}
