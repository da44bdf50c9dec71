use flow2flow::event2msg::{
    self, build_text_content, extract_session_from_topic, extract_text_from_payload, message_from_event,
    regex_lite_find_all, resolve_json_path, substitute_placeholders, Destination, Event2MsgConfig, EventInput,
};
use flow2flow::json::{Json, JsonNumber};
use flow2flow::msg2event::{
    self, build_event_payload, event_from_message, provided_capabilities, required_capabilities, ActorInput,
    MessageInput, Msg2EventConfig,
};

fn s(x: &str) -> Json {
    Json::String(x.to_string())
}

fn obj(entries: Vec<(&str, Json)>) -> Json {
    Json::Object(entries.into_iter().map(|(k, v)| (k.to_string(), v)).collect())
}

#[test]
fn test_extract_session_from_topic() {
    assert_eq!(extract_session_from_topic("greentic.events.alerts.critical"), "critical");
    assert_eq!(extract_session_from_topic("single"), "single");
}

#[test]
fn test_substitute_placeholders() {
    let payload = obj(vec![("message", s("Hello")), ("user", obj(vec![("name", s("Alice"))]))]);
    let template = "Message: {{message}}, User: {{user.name}}";
    assert_eq!(substitute_placeholders(template, &payload), "Message: Hello, User: Alice");
}

#[test]
fn test_extract_text_from_payload() {
    assert_eq!(extract_text_from_payload(&obj(vec![("text", s("Hello World"))])), Some("Hello World".to_string()));
    assert_eq!(extract_text_from_payload(&obj(vec![("message", s("Hi there"))])), Some("Hi there".to_string()));
}

#[test]
fn text_falls_back_to_string_or_json() {
    assert_eq!(extract_text_from_payload(&s("plain")), Some("plain".to_string()));
    assert_eq!(
        extract_text_from_payload(&obj(vec![("n", Json::Number(JsonNumber::PosInt(1)))])),
        Some("{\"n\":1}".to_string())
    );
    assert_eq!(build_text_content(Some("{{ input.a }}!"), &obj(vec![("a", s("x"))])), Some("x!".to_string()));
}

#[test]
fn placeholders_are_found_and_trimmed() {
    let found = regex_lite_find_all("a {{ x.y }} b {{z}} {{open", "");
    assert_eq!(found, vec![("{{ x.y }}".to_string(), "x.y".to_string()), ("{{z}}".to_string(), "z".to_string())]);
}

#[test]
fn json_paths_render_scalars() {
    let payload = obj(vec![
        ("n", Json::Number(JsonNumber::NegInt(-4))),
        ("b", Json::Bool(false)),
        ("z", Json::Null),
        ("a", Json::Array(vec![Json::Number(JsonNumber::PosInt(1))])),
    ]);
    assert_eq!(resolve_json_path(&payload, "input.n"), "-4");
    assert_eq!(resolve_json_path(&payload, "b"), "false");
    assert_eq!(resolve_json_path(&payload, "z"), "");
    assert_eq!(resolve_json_path(&payload, "a"), "[1]");
    assert_eq!(resolve_json_path(&payload, "missing.x"), "");
}

fn event(correlation: Option<&str>, template: Option<&str>) -> event2msg::ConvertInput {
    event2msg::ConvertInput {
        event: EventInput {
            id: "evt-123".into(),
            topic: "alerts.critical".into(),
            event_type: "greentic.alert.v1".into(),
            source: "monitoring-service".into(),
            tenant: event2msg::TenantInput {
                tenant_id: "demo".into(),
                team_id: Some("default".into()),
                user_id: None,
                env_id: "prod".into(),
            },
            subject: None,
            time: "2026-03-11T10:00:00Z".into(),
            correlation_id: correlation.map(|c| c.to_string()),
            payload: obj(vec![("text", s("Server CPU at 95%")), ("severity", s("critical"))]),
            metadata: vec![("phone".into(), "+1234567890".into())],
        },
        config: Event2MsgConfig {
            target_channel: "telegram".into(),
            destination: Destination { id: "+1234567890".into(), kind: Some("phone".into()) },
            text_template: template.map(|t| t.to_string()),
        },
    }
}

#[test]
fn event_becomes_message() {
    let m = message_from_event(&event(Some("corr-456"), None));
    assert_eq!(m.id, "msg-evt-123");
    assert_eq!(m.channel, "telegram");
    assert_eq!(m.session_id, "corr-456");
    assert_eq!(m.text.as_deref(), Some("Server CPU at 95%"));
    assert_eq!(m.tenant.correlation_id, "corr-456");
    assert_eq!(m.to.len(), 1);
    assert_eq!(m.from.as_ref().unwrap().kind.as_deref(), Some("event"));
    let meta: Vec<(&str, &str)> = m.metadata.iter().map(|(k, v)| (k.as_str(), v.as_str())).collect();
    assert!(meta.contains(&("event_id", "evt-123")));
    assert!(meta.contains(&("event_type", "greentic.alert.v1")));
    assert!(meta.contains(&("phone", "+1234567890")));

    let templated = message_from_event(&event(None, Some("Alert: {{severity}}")));
    assert_eq!(templated.session_id, "critical");
    assert_eq!(templated.text.as_deref(), Some("Alert: critical"));
}

fn message() -> MessageInput {
    MessageInput {
        id: "msg-123".into(),
        tenant: msg2event::TenantInput {
            tenant_id: "tenant1".into(),
            team_id: Some("team1".into()),
            user_id: None,
            env_id: "dev".into(),
        },
        channel: "slack".into(),
        session_id: "session-456".into(),
        reply_scope: None,
        from: Some(ActorInput { id: "U12345".into(), kind: Some("user".into()) }),
        to: vec![],
        correlation_id: Some("corr-789".into()),
        text: Some("Hello world".into()),
        attachments: vec![],
        metadata: vec![],
    }
}

#[test]
fn test_convert_simple_message() {
    let input = msg2event::ConvertInput {
        message: message(),
        config: Msg2EventConfig {
            topic: "integrations.slack.message".into(),
            event_type: "greentic.slack.message.v1".into(),
            source: None,
        },
    };
    let output = event_from_message(&input);
    assert_eq!(output.id, "evt-msg-123");
    assert_eq!(output.topic, "integrations.slack.message");
    assert_eq!(output.event_type, "greentic.slack.message.v1");
    assert_eq!(output.source, "greentic.messaging.slack");
    assert_eq!(output.payload.get("text"), Some(&s("Hello world")));
    assert_eq!(output.payload.get("channel"), Some(&s("slack")));
    assert_eq!(output.subject.as_deref(), Some("user:U12345"));
}

#[test]
fn payload_keys_in_order() {
    let payload = build_event_payload(&message());
    match payload {
        Json::Object(entries) => {
            let keys: Vec<&str> = entries.iter().map(|(k, _)| k.as_str()).collect();
            assert_eq!(keys, vec!["channel", "from", "session_id", "text"]);
        }
        other => panic!("unexpected {other:?}"),
    }
}

#[test]
fn capabilities() {
    assert!(required_capabilities().is_empty());
    assert_eq!(provided_capabilities(), vec!["flow2flow:msg2event".to_string()]);
}
