use surreal_agents::surreal::select::FORBIDDEN_KEYWORDS;
use surreal_agents::{
    JsonNumber, JsonValue, SelectPlan, SurrealDbConfig, SurrealError, SurrealSelectArgs,
    SurrealSelectTool,
};

fn tool() -> SurrealSelectTool {
    let config = SurrealDbConfig::new(
        "ws://localhost:8000".to_string(),
        "root".to_string(),
        "root".to_string(),
        "test".to_string(),
        "test".to_string(),
    );
    SurrealSelectTool::new(config)
}

fn text(s: &str) -> JsonValue {
    JsonValue::String(s.to_string())
}

fn whole(n: u64) -> JsonValue {
    JsonValue::Number(JsonNumber::PosInt(n))
}

fn object(members: Vec<(&str, JsonValue)>) -> JsonValue {
    JsonValue::Object(members.into_iter().map(|(name, value)| (name.to_string(), value)).collect())
}

fn answer(query: &str) -> String {
    match tool().prepare(&SurrealSelectArgs { query: query.to_string() }) {
        SelectPlan::Answer(text) => text,
        SelectPlan::Run(statement) => panic!("statement was let through: {statement}"),
    }
}

fn fault(query: &str) -> String {
    match tool().validate_query(query) {
        Err(SurrealError::InvalidInput(fault)) => fault,
        other => panic!("expected a refusal, got {other:?}"),
    }
}

#[test]
fn test_surreal_select_tool_creation() {
    let config = SurrealDbConfig::new(
        "ws://localhost:8000".to_string(),
        "root".to_string(),
        "root".to_string(),
        "test".to_string(),
        "test".to_string(),
    );

    let tool = SurrealSelectTool::new(config);
    assert_eq!(tool.name(), "surreal_select");
}

#[test]
fn select_test_tool_definition() {
    let config = SurrealDbConfig::new(
        "ws://localhost:8000".to_string(),
        "root".to_string(),
        "root".to_string(),
        "test".to_string(),
        "test".to_string(),
    );

    let tool = SurrealSelectTool::new(config);
    let definition = tool.definition("".to_string());

    assert_eq!(definition.name, "surreal_select");
    assert!(!definition.description.is_empty());
    assert!(definition.parameters.get("properties").is_some());
}

#[test]
fn test_empty_query_error() {
    let config = SurrealDbConfig::new(
        "ws://localhost:8000".to_string(),
        "root".to_string(),
        "root".to_string(),
        "test".to_string(),
        "test".to_string(),
    );

    let tool = SurrealSelectTool::new(config);
    let args = SurrealSelectArgs { query: "".to_string() };

    let result = tool.prepare(&args);
    assert!(matches!(result, SelectPlan::Answer(_)));
    let response = match result {
        SelectPlan::Answer(text) => text,
        SelectPlan::Run(statement) => statement,
    };
    assert!(response.contains("Query validation error"));
    assert!(response.contains("Query cannot be empty"));
}

#[test]
fn test_non_select_query_error() {
    let config = SurrealDbConfig::new(
        "ws://localhost:8000".to_string(),
        "root".to_string(),
        "root".to_string(),
        "test".to_string(),
        "test".to_string(),
    );

    let tool = SurrealSelectTool::new(config);
    let args = SurrealSelectArgs { query: "DELETE FROM users".to_string() };

    let result = tool.prepare(&args);
    assert!(matches!(result, SelectPlan::Answer(_)));
    let response = match result {
        SelectPlan::Answer(text) => text,
        SelectPlan::Run(statement) => statement,
    };
    assert!(response.contains("Query validation error"));
    assert!(response.contains("Only SELECT statements are allowed"));
}

#[test]
fn test_dangerous_keyword_error() {
    let config = SurrealDbConfig::new(
        "ws://localhost:8000".to_string(),
        "root".to_string(),
        "root".to_string(),
        "test".to_string(),
        "test".to_string(),
    );

    let tool = SurrealSelectTool::new(config);
    let args = SurrealSelectArgs { query: "SELECT * FROM users; DROP TABLE users".to_string() };

    let result = tool.prepare(&args);
    assert!(matches!(result, SelectPlan::Answer(_)));
    let response = match result {
        SelectPlan::Answer(text) => text,
        SelectPlan::Run(statement) => statement,
    };
    assert!(response.contains("Query validation error"));
    assert!(response.contains("Query contains forbidden keyword"));
}

#[test]
fn test_format_value() {
    let config = SurrealDbConfig::new(
        "ws://localhost:8000".to_string(),
        "root".to_string(),
        "root".to_string(),
        "test".to_string(),
        "test".to_string(),
    );

    let tool = SurrealSelectTool::new(config);

    // Test string formatting
    assert_eq!(tool.format_value(&JsonValue::String("hello".to_string())), "hello");

    // Test number formatting
    assert_eq!(tool.format_value(&JsonValue::Number(JsonNumber::PosInt(42))), "42");

    // Test boolean formatting
    assert_eq!(tool.format_value(&JsonValue::Bool(true)), "true");

    // Test null formatting
    assert_eq!(tool.format_value(&JsonValue::Null), "null");

    // Test empty array formatting
    assert_eq!(tool.format_value(&JsonValue::Array(vec![])), "[]");

    // Test empty object formatting
    assert_eq!(tool.format_value(&JsonValue::Object(Vec::new())), "{}");
}

#[test]
fn refusals_have_their_exact_text() {
    assert_eq!(answer(""), "Query validation error: Invalid input: Query cannot be empty");
    assert_eq!(
        answer("DELETE FROM users"),
        "Query validation error: Invalid input: Only SELECT statements are allowed"
    );
    assert_eq!(
        answer("SELECT * FROM users; DROP TABLE users"),
        "Query validation error: Invalid input: Query contains forbidden keyword: drop"
    );
}

#[test]
fn white_space_only_is_refused_as_empty() {
    for query in ["", " ", "   ", "\t", "\n\r\n", " \u{a0}\u{2003} "] {
        assert_eq!(fault(query), "Query cannot be empty");
    }
}

#[test]
fn statements_that_do_not_begin_with_select_are_refused() {
    for query in [
        "DELETE FROM users",
        "drop table users",
        "INFO FOR TABLE users",
        "  update users set a = 1",
        "selec * from users",
        "(select * from users)",
        "-- select",
    ] {
        assert_eq!(fault(query), "Only SELECT statements are allowed");
        assert!(answer(query).starts_with("Query validation error"));
    }
}

#[test]
fn select_statements_pass_in_any_case_and_with_white_space_around() {
    let tool = tool();
    for query in [
        "SELECT * FROM users",
        "select * from users",
        "SeLeCt name FROM users WHERE age > 18",
        "  \n select * from customers  ",
        "select",
        "selection",
    ] {
        assert!(tool.validate_query(query).is_ok());
    }
}

#[test]
fn a_passing_statement_is_sent_as_it_was_given() {
    let query = "  SELECT * FROM feature_requests WHERE text CONTAINS 'Export'  ";
    match tool().prepare(&SurrealSelectArgs { query: query.to_string() }) {
        SelectPlan::Run(statement) => assert_eq!(statement, query),
        SelectPlan::Answer(text) => panic!("statement was refused: {text}"),
    }
}

#[test]
fn every_forbidden_keyword_is_named() {
    let keywords = ["drop", "delete", "update", "insert", "create", "alter", "truncate"];
    assert_eq!(keywords.len(), FORBIDDEN_KEYWORDS);
    for keyword in keywords {
        let lower = format!("select * from t; {keyword} x");
        assert_eq!(fault(&lower), format!("Query contains forbidden keyword: {keyword}"));
        let upper = format!("SELECT * FROM t; {} x", keyword.to_uppercase());
        assert_eq!(fault(&upper), format!("Query contains forbidden keyword: {keyword}"));
    }
}

#[test]
fn a_forbidden_keyword_inside_a_word_or_a_string_is_refused_too() {
    assert_eq!(fault("SELECT * FROM updates"), "Query contains forbidden keyword: update");
    assert_eq!(fault("select created_at from t"), "Query contains forbidden keyword: create");
    assert_eq!(
        fault("SELECT * FROM t WHERE note = 'please insert'"),
        "Query contains forbidden keyword: insert"
    );
    assert_eq!(fault("SELECT * FROM t WHERE a = 'backdrop'"), "Query contains forbidden keyword: drop");
}

#[test]
fn of_several_forbidden_keywords_the_first_in_the_list_is_named() {
    assert_eq!(
        fault("SELECT * FROM t WHERE x = 'insert delete'"),
        "Query contains forbidden keyword: delete"
    );
    assert_eq!(
        fault("select truncate, alter, create from t"),
        "Query contains forbidden keyword: create"
    );
    assert_eq!(fault("select update from drop"), "Query contains forbidden keyword: drop");
}

#[test]
fn empty_array_result_says_no_results() {
    assert_eq!(tool().format_result(&JsonValue::Array(vec![])), "No results found.");
    assert_eq!(tool().complete(&Ok(JsonValue::Array(vec![]))), "No results found.");
}

#[test]
fn null_result_says_no_results() {
    assert_eq!(tool().format_result(&JsonValue::Null), "No results found.");
}

#[test]
fn single_object_result_is_one_record_with_sorted_keys() {
    let result = object(vec![("name", text("Bob")), ("id", whole(2))]);
    assert_eq!(
        tool().format_result(&result),
        "Found 1 record:\n\nRecord 1:\n  id: 2\n  name: Bob\n"
    );
    let same = object(vec![("id", whole(2)), ("name", text("Bob"))]);
    assert_eq!(tool().format_result(&same), "Found 1 record:\n\nRecord 1:\n  id: 2\n  name: Bob\n");
}

#[test]
fn array_result_numbers_its_records_from_one() {
    let result = JsonValue::Array(vec![
        object(vec![("id", whole(1)), ("name", text("Alice"))]),
        object(vec![("name", text("Bob")), ("id", whole(2))]),
    ]);
    assert_eq!(
        tool().format_result(&result),
        "Found 2 record(s):\n\nRecord 1:\n  id: 1\n  name: Alice\n\nRecord 2:\n  id: 2\n  name: Bob\n\n"
    );
}

#[test]
fn array_result_of_one_record_still_says_records() {
    let result = JsonValue::Array(vec![object(vec![("id", whole(7))])]);
    assert_eq!(tool().format_result(&result), "Found 1 record(s):\n\nRecord 1:\n  id: 7\n\n");
}

#[test]
fn array_result_counts_in_base_ten() {
    let records: Vec<JsonValue> = (0..12).map(whole).collect();
    let formatted = tool().format_result(&JsonValue::Array(records));
    assert!(formatted.starts_with("Found 12 record(s):\n\nRecord 1:\n  0\n\nRecord 2:\n  1\n\n"));
    assert!(formatted.ends_with("Record 10:\n  9\n\nRecord 11:\n  10\n\nRecord 12:\n  11\n\n"));
}

#[test]
fn array_result_of_values_that_are_no_objects() {
    let result = JsonValue::Array(vec![text("a"), JsonValue::Null, JsonValue::Array(vec![])]);
    assert_eq!(
        tool().format_result(&result),
        "Found 3 record(s):\n\nRecord 1:\n  a\n\nRecord 2:\n  null\n\nRecord 3:\n  []\n\n"
    );
}

#[test]
fn scalar_results_are_written_as_json() {
    assert_eq!(tool().format_result(&text("hello")), "Result: \"hello\"");
    assert_eq!(tool().format_result(&text("say \"hi\"\n")), "Result: \"say \\\"hi\\\"\\n\"");
    assert_eq!(tool().format_result(&text("")), "Result: \"\"");
    assert_eq!(tool().format_result(&whole(42)), "Result: 42");
    assert_eq!(tool().format_result(&JsonValue::Number(JsonNumber::NegInt(-3))), "Result: -3");
    assert_eq!(
        tool().format_result(&JsonValue::Number(JsonNumber::Float("2.5".to_string()))),
        "Result: 2.5"
    );
    assert_eq!(tool().format_result(&JsonValue::Bool(true)), "Result: true");
    assert_eq!(tool().format_result(&JsonValue::Bool(false)), "Result: false");
}

#[test]
fn nested_values_are_joined_by_comma_and_space() {
    let record = object(vec![
        ("tags", JsonValue::Array(vec![text("a"), text("b")])),
        ("active", JsonValue::Bool(true)),
    ]);
    assert_eq!(tool().format_record(&record), "  active: true\n  tags: [a, b]\n");
}

#[test]
fn format_value_writes_lists_and_objects() {
    let tool = tool();
    assert_eq!(tool.format_value(&JsonValue::Array(vec![whole(1), whole(2), whole(3)])), "[1, 2, 3]");
    assert_eq!(tool.format_value(&JsonValue::Array(vec![text("only")])), "[only]");
    assert_eq!(
        tool.format_value(&object(vec![("b", whole(1)), ("a", JsonValue::Null)])),
        "{b: 1, a: null}"
    );
    assert_eq!(
        tool.format_value(&JsonValue::Array(vec![
            JsonValue::Array(vec![]),
            object(vec![]),
            JsonValue::Array(vec![object(vec![("k", JsonValue::Array(vec![JsonValue::Bool(false)]))])]),
        ])),
        "[[], {}, [{k: [false]}]]"
    );
    assert_eq!(tool.format_value(&JsonValue::Bool(false)), "false");
    assert_eq!(tool.format_value(&JsonValue::Number(JsonNumber::NegInt(-12))), "-12");
    assert_eq!(tool.format_value(&JsonValue::Number(JsonNumber::Float("0.25".to_string()))), "0.25");
    assert_eq!(tool.format_value(&text("with \"quotes\"")), "with \"quotes\"");
}

#[test]
fn format_record_of_an_empty_object_is_empty() {
    assert_eq!(tool().format_record(&object(vec![])), "");
}

#[test]
fn format_record_of_a_value_that_is_no_object_is_one_line() {
    assert_eq!(tool().format_record(&text("plain")), "  plain\n");
    assert_eq!(tool().format_record(&whole(5)), "  5\n");
    assert_eq!(tool().format_record(&JsonValue::Array(vec![whole(1), whole(2)])), "  [1, 2]\n");
}

#[test]
fn format_record_sorts_by_code_point() {
    let record = object(vec![("b", whole(1)), ("B", whole(2)), ("a", whole(3)), ("_", whole(4))]);
    assert_eq!(tool().format_record(&record), "  B: 2\n  _: 4\n  a: 3\n  b: 1\n");
}

#[test]
fn formatting_twice_gives_the_same_text() {
    let result = JsonValue::Array(vec![
        object(vec![("id", whole(1)), ("tags", JsonValue::Array(vec![text("x")]))]),
        text("loose"),
    ]);
    let tool = tool();
    assert_eq!(tool.format_result(&result), tool.format_result(&result));
    let again = JsonValue::Array(vec![
        object(vec![("id", whole(1)), ("tags", JsonValue::Array(vec![text("x")]))]),
        text("loose"),
    ]);
    assert_eq!(tool.format_result(&result), tool.format_result(&again));
}

#[test]
fn complete_formats_what_the_datastore_returned() {
    let outcome = Ok(object(vec![("name", text("Bob")), ("id", whole(2))]));
    assert_eq!(tool().complete(&outcome), "Found 1 record:\n\nRecord 1:\n  id: 2\n  name: Bob\n");
}

#[test]
fn complete_turns_errors_into_advice() {
    let tool = tool();
    assert_eq!(
        tool.complete(&Err(SurrealError::QueryError("Parse error: unexpected token".to_string()))),
        "Query execution error: Query error: Parse error: unexpected token\n\nPlease check your SQL syntax and try again."
    );
    assert_eq!(
        tool.complete(&Err(SurrealError::ConnectionError("refused".to_string()))),
        "Query execution error: Connection error: refused\n\nPlease check your SQL syntax and try again."
    );
    assert_eq!(
        tool.complete(&Err(SurrealError::InvalidInput("bad".to_string()))),
        "Query execution error: Invalid input: bad\n\nPlease check your SQL syntax and try again."
    );
}

#[test]
fn complete_reports_a_serialization_error() {
    let error = serde_json::from_str::<serde_json::Value>("{").unwrap_err();
    let detail = error.to_string();
    let advice = tool().complete(&Err(SurrealError::from(error)));
    assert_eq!(
        advice,
        format!(
            "Query execution error: Serialization error: {detail}\n\nPlease check your SQL syntax and try again."
        )
    );
}

#[test]
fn screen_statement_takes_the_text_as_it_is() {
    let tool = tool();
    assert!(tool.screen_statement("select * from users").is_ok());
    assert!(tool.screen_statement("select").is_ok());
    for (statement, fault) in [
        ("SELECT * FROM users", "Only SELECT statements are allowed"),
        (" select * from users", "Only SELECT statements are allowed"),
        ("", "Only SELECT statements are allowed"),
        ("select * from users; drop table users", "Query contains forbidden keyword: drop"),
        ("select * from users; DROP table users", ""),
        ("select altered from t", "Query contains forbidden keyword: alter"),
        ("select truncated from t", "Query contains forbidden keyword: truncate"),
    ] {
        match tool.screen_statement(statement) {
            Err(SurrealError::InvalidInput(found)) => assert_eq!(found, fault),
            Ok(()) => assert_eq!(fault, ""),
            other => panic!("expected a verdict on the statement, got {other:?}"),
        }
    }
}

#[test]
fn format_scalar_puts_the_value_behind_its_label() {
    assert_eq!(tool().format_scalar("42"), "Result: 42");
    assert_eq!(tool().format_scalar(""), "Result: ");
    assert_eq!(tool().format_scalar("\"quoted\""), "Result: \"quoted\"");
}

#[test]
fn the_tool_keeps_its_connection_values() {
    let tool = tool();
    assert_eq!(tool.connection().url, "ws://localhost:8000");
    assert_eq!(tool.connection().user, "root");
    assert_eq!(tool.connection().pass, "root");
    assert_eq!(tool.connection().db, "test");
    assert_eq!(tool.connection().namespace, "test");
    let copy = tool.clone();
    assert_eq!(copy.connection().url, "ws://localhost:8000");
}

#[test]
fn a_valid_statement_that_returns_nothing_says_no_results() {
    let tool = tool();
    let plan = tool.prepare(&SurrealSelectArgs { query: "SELECT * FROM users WHERE age > 200".to_string() });
    let statement = match plan {
        SelectPlan::Run(statement) => statement,
        SelectPlan::Answer(text) => panic!("statement was refused: {text}"),
    };
    assert_eq!(statement, "SELECT * FROM users WHERE age > 200");
    assert_eq!(tool.complete(&Ok(JsonValue::Array(vec![]))), "No results found.");
}
