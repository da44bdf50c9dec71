use flow2flow::examples::{faq_flow, order_flow, weather_flow};

#[test]
fn weather_flow_executes() {
    let runtime = weather_flow().expect("valid weather flow");
    let outcome = runtime.execute("Lisbon");
    assert!(outcome.succeeded);
    assert_eq!(outcome.trace.len(), 3);
    assert_eq!(outcome.trace[0], "fetch: handled Lisbon");
}

#[test]
fn order_and_faq_flows_execute() {
    let orders = order_flow().expect("valid order flow");
    assert_eq!(orders.definition().name, "orders");
    assert_eq!(orders.execute("o-1").trace.len(), 3);
    let faq = faq_flow().expect("valid faq flow");
    let outcome = faq.execute("q");
    assert_eq!(outcome.trace, vec!["lookup: handled q".to_string(), "format: handled q".to_string()]);
}
