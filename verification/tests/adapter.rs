use azure_environment::source::normalize_mapping;
use azure_environment::AzureEnvironment;
use config::Value;

fn string_value(s: &str) -> Value {
    Value::new(None, s.to_string())
}

#[test]
fn normalize_mapping_rewrites_keys_and_keeps_values() {
    let pairs = vec![
        ("external_apis.auth.scopes.0".to_string(), string_value("read")),
        ("value_1".to_string(), string_value("42")),
        ("clients.1.secret".to_string(), string_value("value_2")),
    ];
    let out = normalize_mapping(pairs);
    assert_eq!(out.len(), 3);
    assert_eq!(out[0].0, "external_apis.auth.scopes[0]");
    assert_eq!(out[0].1, string_value("read"));
    assert_eq!(out[1].0, "value_1");
    assert_eq!(out[1].1, string_value("42"));
    assert_eq!(out[2].0, "clients[1].secret");
    assert_eq!(out[2].1, string_value("value_2"));
}

#[test]
fn normalize_mapping_empty() {
    let out = normalize_mapping(Vec::new());
    assert_eq!(out.len(), 0);
}

#[test]
fn collect_with_unused_prefix_is_empty() {
    let adapter = AzureEnvironment::with_prefix("NO_SUCH_PREFIX_IS_EXPECTED_ANYWHERE")
        .separator("__")
        .ignore_empty(true);
    let collected = adapter.collect();
    assert!(collected.is_ok());
    assert_eq!(collected.unwrap().len(), 0);
}

#[test]
fn adapter_from_reader() {
    let reader = config::Environment::with_prefix("NO_SUCH_PREFIX_IS_EXPECTED_EITHER");
    let adapter = AzureEnvironment::from(reader);
    let collected = adapter.collect();
    assert!(collected.is_ok());
    assert_eq!(collected.unwrap().len(), 0);
}

#[test]
fn default_adapter_configured_then_collected() {
    let adapter = AzureEnvironment::default()
        .prefix("YET_ANOTHER_PREFIX_NOBODY_SETS")
        .separator("__");
    let collected = adapter.collect();
    assert!(collected.is_ok());
    assert_eq!(collected.unwrap().len(), 0);
}

#[test]
fn adapter_setters_chain() {
    let reader = config::Environment::new();
    let adapter = AzureEnvironment::from_environment(reader)
        .prefix("STILL_NO_SUCH_PREFIX_ANYWHERE")
        .separator("__")
        .ignore_empty(false);
    let collected = adapter.collect();
    assert!(collected.is_ok());
    assert_eq!(collected.unwrap().len(), 0);
}
