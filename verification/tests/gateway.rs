use surreal_agents::surreal::string_parameter_schema;
use surreal_agents::{GatewayStage, JsonValue, SurrealDbConfig, SurrealError};

#[test]
fn db_config_keeps_its_values() {
    let config = SurrealDbConfig::new(
        "ws://localhost:8000".to_string(),
        "root".to_string(),
        "pw".to_string(),
        "crm".to_string(),
        "prod".to_string(),
    );
    assert_eq!(config.url, "ws://localhost:8000");
    assert_eq!(config.user, "root");
    assert_eq!(config.pass, "pw");
    assert_eq!(config.db, "crm");
    assert_eq!(config.namespace, "prod");
}

#[test]
fn db_config_clones_value_for_value() {
    let config = SurrealDbConfig::new(
        "u".to_string(),
        "n".to_string(),
        "p".to_string(),
        "d".to_string(),
        "s".to_string(),
    );
    let copy = config.clone();
    assert_eq!(copy.url, "u");
    assert_eq!(copy.user, "n");
    assert_eq!(copy.pass, "p");
    assert_eq!(copy.db, "d");
    assert_eq!(copy.namespace, "s");
}

#[test]
fn errors_have_messages() {
    assert_eq!(
        SurrealError::ConnectionError("timed out".to_string()).message(),
        "Connection error: timed out"
    );
    assert_eq!(SurrealError::QueryError("no such table".to_string()).message(), "Query error: no such table");
    assert_eq!(
        SurrealError::InvalidInput("Table name cannot be empty".to_string()).message(),
        "Invalid input: Table name cannot be empty"
    );
    assert_eq!(SurrealError::QueryError(String::new()).message(), "Query error: ");
}

#[test]
fn a_json_error_becomes_a_serialization_error() {
    let error = serde_json::from_str::<serde_json::Value>("[1,").unwrap_err();
    let detail = error.to_string();
    let wrapped = SurrealError::from(error);
    assert!(matches!(wrapped, SurrealError::SerializationError(_)));
    assert_eq!(wrapped.message(), format!("Serialization error: {detail}"));
    assert!(!detail.is_empty());
}

#[test]
fn early_stages_fail_as_connection_errors() {
    for stage in [GatewayStage::Connect, GatewayStage::Authenticate, GatewayStage::SelectScope] {
        match stage.failure("unreachable".to_string()) {
            SurrealError::ConnectionError(detail) => assert_eq!(detail, "unreachable"),
            other => panic!("expected a connection error, got {other:?}"),
        }
    }
}

#[test]
fn late_stages_fail_as_query_errors() {
    for stage in [GatewayStage::Submit, GatewayStage::Extract] {
        match stage.failure("parse error".to_string()) {
            SurrealError::QueryError(detail) => assert_eq!(detail, "parse error"),
            other => panic!("expected a query error, got {other:?}"),
        }
    }
}

#[test]
fn a_string_parameter_is_declared_as_an_object_type() {
    let schema = string_parameter_schema("query", "The statement");
    let properties = schema.get("properties").unwrap();
    let property = properties.get("query").unwrap();
    assert_eq!(property.get("type"), Some(&JsonValue::String("string".to_string())));
    assert_eq!(property.get("description"), Some(&JsonValue::String("The statement".to_string())));
    assert_eq!(schema.get("type"), Some(&JsonValue::String("object".to_string())));
    assert_eq!(
        schema.get("required"),
        Some(&JsonValue::Array(vec![JsonValue::String("query".to_string())]))
    );
}
