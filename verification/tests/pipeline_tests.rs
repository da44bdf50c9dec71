use flow2flow::event2msg::{self, message_from_event, resolve_json_path, Destination, Event2MsgConfig, EventInput};
use flow2flow::json::{Json, JsonNumber};
use flow2flow::msg2event::{self, event_from_message, ActorInput, MessageInput, Msg2EventConfig};

fn s(x: &str) -> Json {
    Json::String(x.to_string())
}

fn obj(entries: Vec<(&str, Json)>) -> Json {
    Json::Object(entries.into_iter().map(|(k, v)| (k.to_string(), v)).collect())
}

fn meta(entries: Vec<(&str, &str)>) -> Vec<(String, String)> {
    entries.into_iter().map(|(k, v)| (k.to_string(), v.to_string())).collect()
}

fn lookup<'a>(m: &'a [(String, String)], key: &str) -> Option<&'a str> {
    m.iter().find(|(k, _)| k == key).map(|(_, v)| v.as_str())
}

fn tenant_in(tenant: &str, team: Option<&str>, env: &str) -> event2msg::TenantInput {
    event2msg::TenantInput {
        tenant_id: tenant.to_string(),
        team_id: team.map(str::to_string),
        user_id: None,
        env_id: env.to_string(),
    }
}

fn msg_tenant(tenant: &str, team: Option<&str>, env: &str) -> msg2event::TenantInput {
    msg2event::TenantInput {
        tenant_id: tenant.to_string(),
        team_id: team.map(str::to_string),
        user_id: None,
        env_id: env.to_string(),
    }
}

#[allow(clippy::too_many_arguments)]
fn event_input(
    id: &str,
    topic: &str,
    event_type: &str,
    source: &str,
    tenant: event2msg::TenantInput,
    correlation_id: Option<&str>,
    payload: Json,
    metadata: Vec<(String, String)>,
    config: Event2MsgConfig,
) -> event2msg::ConvertInput {
    event2msg::ConvertInput {
        event: EventInput {
            id: id.to_string(),
            topic: topic.to_string(),
            event_type: event_type.to_string(),
            source: source.to_string(),
            tenant,
            subject: None,
            time: "2026-03-11T10:00:00Z".to_string(),
            correlation_id: correlation_id.map(str::to_string),
            payload,
            metadata,
        },
        config,
    }
}

fn config(channel: &str, dest: &str, kind: Option<&str>, template: Option<&str>) -> Event2MsgConfig {
    Event2MsgConfig {
        target_channel: channel.to_string(),
        destination: Destination { id: dest.to_string(), kind: kind.map(str::to_string) },
        text_template: template.map(str::to_string),
    }
}

fn message_input(
    id: &str,
    tenant: msg2event::TenantInput,
    channel: &str,
    session_id: &str,
    correlation_id: Option<&str>,
    from: Option<ActorInput>,
    text: Option<&str>,
    metadata: Vec<(String, String)>,
) -> MessageInput {
    MessageInput {
        id: id.to_string(),
        tenant,
        channel: channel.to_string(),
        session_id: session_id.to_string(),
        reply_scope: None,
        from,
        to: vec![],
        correlation_id: correlation_id.map(str::to_string),
        text: text.map(str::to_string),
        attachments: vec![],
        metadata,
    }
}

#[test]
fn test_event2msg_e2e() {
    let input = event_input(
        "evt-123",
        "alerts.critical",
        "greentic.alert.v1",
        "monitoring-service",
        tenant_in("demo", Some("default"), "prod"),
        Some("corr-456"),
        obj(vec![("severity", s("critical")), ("text", s("Server CPU at 95%"))]),
        meta(vec![("phone", "+1234567890")]),
        config("telegram", "+1234567890", Some("phone"), None),
    );
    let output = message_from_event(&input);
    assert!(!output.id.is_empty());
    assert_eq!(output.tenant.tenant_id, "demo");
    assert_eq!(output.channel, "telegram");
    assert!(output.text.as_deref().unwrap().contains("Server CPU at 95%"));
}

#[test]
fn test_msg2event_e2e() {
    let input = msg2event::ConvertInput {
        message: message_input(
            "msg-789",
            msg_tenant("demo", Some("default"), "prod"),
            "telegram",
            "sess-abc",
            Some("corr-xyz"),
            Some(ActorInput { id: "user123".to_string(), kind: Some("user".to_string()) }),
            Some("/webhook trigger-deploy"),
            vec![],
        ),
        config: Msg2EventConfig {
            topic: "commands.deploy".to_string(),
            event_type: "greentic.command.v1".to_string(),
            source: None,
        },
    };
    let output = event_from_message(&input);
    assert!(!output.id.is_empty());
    assert_eq!(output.tenant.tenant_id, "demo");
    assert_eq!(output.topic, "commands.deploy");
    assert_eq!(output.event_type, "greentic.command.v1");
    assert_eq!(output.correlation_id.as_deref(), Some("corr-xyz"));
}

#[test]
fn test_bidirectional_conversion() {
    let original = event_input(
        "evt-round-trip",
        "test.roundtrip",
        "greentic.test.v1",
        "test-source",
        tenant_in("test-tenant", Some("test-team"), "test"),
        Some("round-trip-123"),
        obj(vec![("text", s("Round trip test message"))]),
        vec![],
        config("test-channel", "test-dest", Some("test"), None),
    );
    let msg = message_from_event(&original);
    assert!(!msg.id.is_empty());
    assert_eq!(msg.tenant.tenant_id, "test-tenant");
    assert_eq!(msg.channel, "test-channel");

    let reply = msg2event::ConvertInput {
        message: message_input(
            &msg.id,
            msg_tenant(&msg.tenant.tenant_id, msg.tenant.team_id.as_deref(), &msg.tenant.env_id),
            &msg.channel,
            &msg.session_id,
            None,
            None,
            msg.text.as_deref(),
            msg.metadata.clone(),
        ),
        config: Msg2EventConfig {
            topic: "test.roundtrip.reply".to_string(),
            event_type: "greentic.test.reply.v1".to_string(),
            source: None,
        },
    };
    let event = event_from_message(&reply);
    assert!(!event.id.is_empty());
    assert_eq!(event.tenant.tenant_id, "test-tenant");
    assert_eq!(event.topic, "test.roundtrip.reply");
    assert_eq!(event.event_type, "greentic.test.reply.v1");
}

#[test]
fn test_event2msg_with_template() {
    let input = event_input(
        "evt-tmpl",
        "alerts.server",
        "greentic.alert.v1",
        "monitoring",
        tenant_in("demo", None, "prod"),
        None,
        obj(vec![
            ("cpu", Json::Number(JsonNumber::PosInt(95))),
            ("memory", Json::Number(JsonNumber::PosInt(80))),
            ("server", s("web-01")),
        ]),
        vec![],
        config("slack", "#alerts", None, Some("Server {{server}} - CPU: {{cpu}}%, Memory: {{memory}}%")),
    );
    let output = message_from_event(&input);
    assert!(!output.id.is_empty());
    let text = output.text.unwrap();
    assert!(text.contains("web-01"));
    assert!(text.contains("95"));
    assert!(text.contains("80"));
    assert_eq!(text, "Server web-01 - CPU: 95%, Memory: 80%");
}

#[test]
fn test_event2msg_metadata_propagation() {
    let input = event_input(
        "evt-meta",
        "test.metadata",
        "greentic.test.v1",
        "test-source",
        tenant_in("demo", None, "prod"),
        None,
        obj(vec![("text", s("Hello"))]),
        meta(vec![("another_key", "another_value"), ("custom_key", "custom_value")]),
        config("test", "test", None, None),
    );
    let output = message_from_event(&input);
    assert_eq!(lookup(&output.metadata, "custom_key"), Some("custom_value"));
    assert_eq!(lookup(&output.metadata, "another_key"), Some("another_value"));
    assert_eq!(lookup(&output.metadata, "event_id"), Some("evt-meta"));
    assert_eq!(lookup(&output.metadata, "event_type"), Some("greentic.test.v1"));
}

#[test]
fn test_msg2event_custom_source() {
    let input = msg2event::ConvertInput {
        message: message_input(
            "msg-src",
            msg_tenant("demo", None, "prod"),
            "slack",
            "sess-123",
            None,
            None,
            Some("test message"),
            vec![],
        ),
        config: Msg2EventConfig {
            topic: "custom.topic".to_string(),
            event_type: "greentic.custom.v1".to_string(),
            source: Some("my-custom-source".to_string()),
        },
    };
    assert_eq!(event_from_message(&input).source, "my-custom-source");
}

#[test]
fn readme_alert_template() {
    let input = event_input(
        "evt-001",
        "alerts.critical",
        "greentic.alert.v1",
        "monitoring-service",
        tenant_in("demo", None, "prod"),
        None,
        obj(vec![("message", s("Server CPU > 90%")), ("severity", s("critical"))]),
        vec![],
        config("telegram", "+1234567890", None, Some("🚨 Alert: {{payload.message}}")),
    );
    let output = message_from_event(&input);
    assert_eq!(output.text.as_deref(), Some("🚨 Alert: Server CPU > 90%"));
    assert_eq!(output.id, "msg-evt-001");
    assert_eq!(output.session_id, "critical");
}

#[test]
fn placeholder_paths_inside_the_payload() {
    let payload = obj(vec![("message", s("hi")), ("payload", obj(vec![("x", s("inner"))]))]);
    assert_eq!(resolve_json_path(&payload, "payload.message"), "hi");
    assert_eq!(resolve_json_path(&payload, "input.payload.message"), "hi");
    assert_eq!(resolve_json_path(&payload, "input.message"), "hi");
    assert_eq!(resolve_json_path(&payload, "message"), "hi");
    assert_eq!(resolve_json_path(&payload, "payload.payload.x"), "inner");
    assert_eq!(resolve_json_path(&payload, "payload.missing"), "");
}
