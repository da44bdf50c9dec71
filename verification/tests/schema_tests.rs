use flow2flow::contract::{FlowSpec, FlowValidationError, InSpec, NodeDef, OutSpec};
use flow2flow::loader::finish_load;
use flow2flow::schema::{
    any_schema, attachments_array_schema, config_schema, input_schema, metadata_schema, object_schema,
    output_schema, string_schema, ExtraProperties, Schema,
};

fn object_parts(s: &Schema) -> (Vec<String>, Vec<String>) {
    match s {
        Schema::Object { properties, required, .. } => {
            (properties.iter().map(|(k, _)| k.clone()).collect(), required.clone())
        }
        _ => panic!("not an object schema"),
    }
}

fn property<'a>(s: &'a Schema, name: &str) -> &'a Schema {
    match s {
        Schema::Object { properties, .. } => &properties.iter().find(|(k, _)| k == name).expect("property").1,
        _ => panic!("not an object schema"),
    }
}

#[test]
fn string_schema_bounds() {
    match string_schema(1, 64) {
        Schema::String { min_len, max_len, regex, format } => {
            assert_eq!(min_len, Some(1));
            assert_eq!(max_len, Some(64));
            assert!(regex.is_none() && format.is_none());
        }
        _ => panic!("not a string schema"),
    }
}

#[test]
fn object_schema_keeps_last_of_repeated_names() {
    let s = object_schema(vec![
        ("a", string_schema(1, 2), true),
        ("b", string_schema(1, 3), false),
        ("a", string_schema(5, 9), false),
    ]);
    let (names, required) = object_parts(&s);
    assert_eq!(names, vec!["a".to_string(), "b".to_string()]);
    assert_eq!(required, vec!["a".to_string()]);
    match property(&s, "a") {
        Schema::String { min_len, max_len, .. } => {
            assert_eq!((*min_len, *max_len), (Some(5), Some(9)));
        }
        _ => panic!("not a string schema"),
    }
    match s {
        Schema::Object { additional: ExtraProperties::Allow, .. } => {}
        _ => panic!("additional properties should be allowed"),
    }
}

#[test]
fn input_schema_layout() {
    let s = input_schema();
    let (names, required) = object_parts(&s);
    assert_eq!(names, vec!["message".to_string(), "config".to_string()]);
    assert_eq!(required, vec!["message".to_string(), "config".to_string()]);
    let (message_names, message_required) = object_parts(property(&s, "message"));
    assert_eq!(message_names.len(), 11);
    assert_eq!(
        message_required,
        vec!["id".to_string(), "tenant".to_string(), "channel".to_string(), "session_id".to_string()]
    );
    let (config_names, config_required) = object_parts(property(&s, "config"));
    assert_eq!(config_names, vec!["topic".to_string(), "event_type".to_string(), "source".to_string()]);
    assert_eq!(config_required, vec!["topic".to_string(), "event_type".to_string()]);
}

#[test]
fn output_and_config_schemas() {
    let (names, required) = object_parts(&output_schema());
    assert_eq!(names.len(), 10);
    assert_eq!(
        required,
        vec!["id".to_string(), "topic".to_string(), "type".to_string(), "source".to_string(), "tenant".to_string()]
    );
    let (names, required) = object_parts(&config_schema());
    assert_eq!(names, vec!["default_topic".to_string(), "default_event_type".to_string()]);
    assert_eq!(required, names);
}

#[test]
fn any_schema_choices() {
    match any_schema() {
        Schema::OneOf { variants } => {
            assert_eq!(variants.len(), 7);
            assert!(matches!(variants[0], Schema::Null));
            assert!(matches!(variants[1], Schema::Bool));
            assert!(matches!(variants[4], Schema::Float));
            assert!(matches!(variants[6], Schema::Array { .. }));
        }
        _ => panic!("not a choice"),
    }
}

#[test]
fn metadata_and_attachments() {
    match metadata_schema() {
        Schema::Object { properties, required, additional: ExtraProperties::Schema(inner) } => {
            assert!(properties.is_empty() && required.is_empty());
            assert!(matches!(*inner, Schema::String { min_len: None, max_len: Some(4096), .. }));
        }
        _ => panic!("not a metadata schema"),
    }
    match attachments_array_schema() {
        Schema::Array { items, .. } => {
            let (names, required) = object_parts(&items);
            assert_eq!(names, vec!["mime_type".to_string(), "url".to_string(), "name".to_string(), "size_bytes".to_string()]);
            assert_eq!(required, vec!["mime_type".to_string(), "url".to_string()]);
        }
        _ => panic!("not an array schema"),
    }
}

fn in_node() -> NodeDef {
    NodeDef::In {
        spec: InSpec { intent: "demo.intent".to_string(), params: vec![], router: None, visibility: vec![], allow: vec![] },
    }
}

fn out_node() -> NodeDef {
    NodeDef::Out { spec: OutSpec { returns: vec![], docs: None } }
}

#[test]
fn finish_load_validates() {
    let good = FlowSpec {
        flow_id: "demo".to_string(),
        version: None,
        nodes: vec![("n1".to_string(), in_node()), ("n2".to_string(), out_node())],
        errors: vec![],
    };
    let outcome = finish_load(good.clone(), true).unwrap();
    assert!(outcome.deprecated_nodes_array);
    assert_eq!(outcome.spec, good);
    assert_eq!(outcome.display_text(), "flow demo (deprecated_nodes_array=true)");

    let bad = FlowSpec {
        flow_id: "demo".to_string(),
        version: None,
        nodes: vec![("n1".to_string(), out_node())],
        errors: vec![],
    };
    let err = finish_load(bad, false).unwrap_err();
    assert_eq!(err, FlowValidationError::FirstNodeMustBeIn { node: "n1".to_string() });
    assert_eq!(err.message(), "first node `n1` must be f2f.in");
}

#[test]
fn validation_messages() {
    assert_eq!(FlowValidationError::MissingNodes.message(), "flow must contain at least one node");
    assert_eq!(
        FlowValidationError::InvalidParamName { node: "n1".to_string(), param: "p".to_string() }.message(),
        "parameter `p` in node `n1` is invalid"
    );
    assert_eq!(
        FlowValidationError::InvalidMappingEntry { node: "n2".to_string(), key: "k".to_string() }.message(),
        "call node `n2` mapping entry `k` is invalid"
    );
    assert_eq!(FlowValidationError::DuplicateStepId("s".to_string()).message(), "duplicate step id `s` detected");
}
