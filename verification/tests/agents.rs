use surreal_agents::agents::map::{DecompositionError, SubAgentCatalog, SubQuestions};
use surreal_agents::agents::query::{
    db_config, find_tool, query_preamble, question, AgentState, ModelReply, ToolKind, MAX_TURNS,
};
use surreal_agents::agents::reduce::{reduce, reduce_preamble};
use surreal_agents::agents::MODEL;
use surreal_agents::{JsonNumber, JsonValue, SurrealConfig};

fn text(s: &str) -> JsonValue {
    JsonValue::String(s.to_string())
}

fn object(members: Vec<(&str, JsonValue)>) -> JsonValue {
    JsonValue::Object(members.into_iter().map(|(name, value)| (name.to_string(), value)).collect())
}

fn catalog(entries: &[(&str, &str)]) -> SubAgentCatalog {
    let mut catalog = SubAgentCatalog::new();
    for (name, description) in entries {
        catalog.insert(name.to_string(), description.to_string());
    }
    catalog
}

fn tool_call() -> ModelReply {
    ModelReply::ToolCall {
        tool: "surreal_select".to_string(),
        arguments: "{\"query\": \"SELECT * FROM customers\"}".to_string(),
    }
}

#[test]
fn a_reply_with_both_sub_questions_is_read() {
    let reply = object(vec![
        ("feature_requests", text("Which requests are urgent?")),
        ("customers", text("Who pays most?")),
    ]);
    assert_eq!(
        SubQuestions::from_json(&reply),
        Ok(SubQuestions {
            feature_requests: "Which requests are urgent?".to_string(),
            customers: "Who pays most?".to_string(),
        })
    );
}

#[test]
fn the_order_of_the_members_does_not_matter() {
    let reply = object(vec![("customers", text("c")), ("feature_requests", text("f"))]);
    assert_eq!(
        SubQuestions::from_json(&reply),
        Ok(SubQuestions { feature_requests: "f".to_string(), customers: "c".to_string() })
    );
}

#[test]
fn a_reply_that_is_no_object_is_refused() {
    for reply in [
        JsonValue::Null,
        text("feature_requests"),
        JsonValue::Array(vec![text("f"), text("c")]),
        JsonValue::Bool(true),
        JsonValue::Number(JsonNumber::PosInt(1)),
    ] {
        assert_eq!(SubQuestions::from_json(&reply), Err(DecompositionError::NotAnObject));
    }
}

#[test]
fn a_missing_sub_question_is_named() {
    assert_eq!(
        SubQuestions::from_json(&object(vec![("customers", text("c"))])),
        Err(DecompositionError::MissingField("feature_requests"))
    );
    assert_eq!(
        SubQuestions::from_json(&object(vec![("feature_requests", text("f"))])),
        Err(DecompositionError::MissingField("customers"))
    );
    assert_eq!(
        SubQuestions::from_json(&object(vec![])),
        Err(DecompositionError::MissingField("feature_requests"))
    );
}

#[test]
fn an_empty_sub_question_is_refused() {
    assert_eq!(
        SubQuestions::from_json(&object(vec![("feature_requests", text("")), ("customers", text("c"))])),
        Err(DecompositionError::EmptyField("feature_requests"))
    );
    assert_eq!(
        SubQuestions::from_json(&object(vec![("feature_requests", text("f")), ("customers", text(""))])),
        Err(DecompositionError::EmptyField("customers"))
    );
}

#[test]
fn a_sub_question_that_is_no_string_is_refused() {
    assert_eq!(
        SubQuestions::from_json(&object(vec![
            ("feature_requests", JsonValue::Null),
            ("customers", text("c")),
        ])),
        Err(DecompositionError::NotText("feature_requests"))
    );
    assert_eq!(
        SubQuestions::from_json(&object(vec![
            ("feature_requests", text("f")),
            ("customers", JsonValue::Array(vec![text("c")])),
        ])),
        Err(DecompositionError::NotText("customers"))
    );
}

#[test]
fn a_member_too_many_is_refused() {
    assert_eq!(
        SubQuestions::from_json(&object(vec![
            ("feature_requests", text("f")),
            ("customers", text("c")),
            ("billing", text("b")),
        ])),
        Err(DecompositionError::UnexpectedFields)
    );
    assert_eq!(
        SubQuestions::from_json(&object(vec![
            ("feature_requests", text("f")),
            ("customers", text("c")),
            ("customers", text("again")),
        ])),
        Err(DecompositionError::UnexpectedFields)
    );
}

#[test]
fn a_new_catalog_is_empty() {
    let catalog = SubAgentCatalog::new();
    assert_eq!(catalog.len(), 0);
    assert_eq!(catalog.listing(), "");
    assert_eq!(catalog.description("customers"), None);
    assert!(!catalog.matches_decomposition());
}

#[test]
fn a_catalog_lists_its_sub_agents_in_the_order_of_their_names() {
    let catalog = catalog(&[("feature_requests", "finds requests"), ("customers", "finds customers")]);
    assert_eq!(catalog.len(), 2);
    assert_eq!(
        catalog.listing(),
        "- \"customers\": \"finds customers\"\n- \"feature_requests\": \"finds requests\""
    );
    let other_way = self::catalog(&[("customers", "finds customers"), ("feature_requests", "finds requests")]);
    assert_eq!(other_way.listing(), catalog.listing());
}

#[test]
fn a_catalog_keeps_the_last_description_of_a_name() {
    let catalog = catalog(&[("b", "one"), ("a", "two"), ("c", "three"), ("b", "four")]);
    assert_eq!(catalog.len(), 3);
    assert_eq!(catalog.description("b"), Some(&"four".to_string()));
    assert_eq!(catalog.description("a"), Some(&"two".to_string()));
    assert_eq!(catalog.description("c"), Some(&"three".to_string()));
    assert_eq!(catalog.description("d"), None);
    assert_eq!(catalog.listing(), "- \"a\": \"two\"\n- \"b\": \"four\"\n- \"c\": \"three\"");
}

#[test]
fn a_catalog_orders_many_names() {
    let names = ["m", "c", "x", "a", "q", "b", "z", "n", "", "mm"];
    let mut catalog = SubAgentCatalog::new();
    for name in names {
        catalog.insert(name.to_string(), name.to_uppercase());
    }
    let mut sorted = names.to_vec();
    sorted.sort();
    let expected: Vec<String> =
        sorted.iter().map(|name| format!("- \"{}\": \"{}\"", name, name.to_uppercase())).collect();
    assert_eq!(catalog.listing(), expected.join("\n"));
}

#[test]
fn a_catalog_matches_the_split_when_it_names_both_sub_agents() {
    assert!(catalog(&[("feature_requests", "f"), ("customers", "c")]).matches_decomposition());
    assert!(!catalog(&[("customers", "c")]).matches_decomposition());
    assert!(!catalog(&[("feature_requests", "f"), ("customers", "c"), ("billing", "b")])
        .matches_decomposition());
    assert!(!catalog(&[("feature_requests", "f"), ("clients", "c")]).matches_decomposition());
}

#[test]
fn the_split_is_asked_for_with_the_list_of_sub_agents() {
    let catalog = catalog(&[
        ("feature_requests", "This agent specializes in finding incoming support tickets or feedback logs with feature requests. Do not ask it about customer data other than identifiers."),
        ("customers", "This agent specializes in finding customers and their Annual Recurring Revenue (ARR) in USD. Do not ask it about feature requests."),
    ]);
    let expected = "
                You are a helpful assistant that can answer questions by delagating sub-questions to a sub-agent.
                Sub-agents are specialized in answering questions from a specific dataset.
                Sub-agents do not have access to data that they do not specialize in.

                You have access to the following sub-agents:
                - \"customers\": \"This agent specializes in finding customers and their Annual Recurring Revenue (ARR) in USD. Do not ask it about feature requests.\"
- \"feature_requests\": \"This agent specializes in finding incoming support tickets or feedback logs with feature requests. Do not ask it about customer data other than identifiers.\"

                Please respond with a JSON object map with a key being the name of the sub-agent and a value being the sub-question to ask the sub-agent.
                ";
    assert_eq!(catalog.map_preamble(), expected);
}

#[test]
fn a_table_agent_is_told_its_table_twice() {
    let expected = "
            You are a helpful assistant that can answer questions from the customers table.
            This table lists customers and their Annual Recurring Revenue (ARR) in USD.

            You have access to tools for database operations:
            - surreal_schema: Get schema information for database tables
            - surreal_select: Execute SELECT queries to retrieve data

            Use the surreal_select tool to retrieve data from the customers table.

            IMPORTANT: If a query fails with a syntax error or other issue, the tool will return an error message instead of failing. Read the error message carefully and correct your query syntax before trying again. Common issues include:
            - Missing quotes around string values
            - Incorrect parentheses matching
            - Invalid SQL syntax

            Use CONTAINS operator in WHERE clause to partial match on string values.

            The tools connect to a SurrealDB instance. See SQL syntax here https://surrealdb.com/docs/surrealql/statements/select, https://surrealdb.com/docs/surrealql/clauses/where, https://surrealdb.com/docs/surrealql/datamodel/strings.

            Mention the IDs of which rows were used to generate the response.
            ";
    assert_eq!(
        query_preamble(
            "customers",
            "This table lists customers and their Annual Recurring Revenue (ARR) in USD."
        ),
        expected
    );
}

#[test]
fn the_tools_are_pointed_at_the_configured_datastore() {
    let configured = SurrealConfig {
        host: "db.example.com".to_string(),
        username: "root".to_string(),
        password: "pw".to_string(),
        namespace: "prod".to_string(),
        database: "crm".to_string(),
    };
    let target = db_config(&configured);
    assert_eq!(target.url, "db.example.com");
    assert_eq!(target.user, "root");
    assert_eq!(target.pass, "pw");
    assert_eq!(target.namespace, "prod");
    assert_eq!(target.db, "crm");
}

#[test]
fn tools_are_found_by_name() {
    assert_eq!(find_tool("surreal_schema"), Some(ToolKind::Schema));
    assert_eq!(find_tool("surreal_select"), Some(ToolKind::Select));
    assert_eq!(find_tool("surreal_delete"), None);
    assert_eq!(find_tool(""), None);
    assert_eq!(find_tool("SURREAL_SELECT"), None);
}

#[test]
fn an_answer_ends_the_loop() {
    let state = AgentState::start().on_reply(ModelReply::Answer("Row 3 pays most.".to_string()));
    assert!(matches!(state, AgentState::TerminalAnswer(ref text) if text == "Row 3 pays most."));
    let still = state.on_reply(tool_call());
    assert!(matches!(still, AgentState::TerminalAnswer(ref text) if text == "Row 3 pays most."));
    let after = still.on_tool_output();
    assert!(matches!(after, AgentState::TerminalAnswer(_)));
}

#[test]
fn a_tool_call_is_dispatched_and_its_output_fed_back() {
    let state = AgentState::start().on_reply(tool_call());
    match &state {
        AgentState::DispatchingTool { turns_used, tool, arguments } => {
            assert_eq!(*turns_used, 1);
            assert_eq!(tool, "surreal_select");
            assert_eq!(arguments, "{\"query\": \"SELECT * FROM customers\"}");
        },
        other => panic!("expected a dispatch, got {other:?}"),
    }
    let state = state.on_tool_output();
    assert!(matches!(state, AgentState::AwaitingModel { turns_used: 1 }));
}

#[test]
fn the_tenth_reply_may_still_answer() {
    assert_eq!(MAX_TURNS, 10);
    let mut state = AgentState::start();
    for used in 1..MAX_TURNS {
        state = state.on_reply(tool_call());
        assert!(matches!(state, AgentState::DispatchingTool { turns_used, .. } if turns_used == used));
        state = state.on_tool_output();
        assert!(matches!(state, AgentState::AwaitingModel { turns_used } if turns_used == used));
    }
    let state = state.on_reply(ModelReply::Answer("done".to_string()));
    assert!(matches!(state, AgentState::TerminalAnswer(ref text) if text == "done"));
}

#[test]
fn ten_tool_calls_exhaust_the_budget() {
    let mut state = AgentState::start();
    for _ in 1..MAX_TURNS {
        state = state.on_reply(tool_call()).on_tool_output();
    }
    assert!(matches!(state, AgentState::AwaitingModel { turns_used: 9 }));
    let state = state.on_reply(tool_call());
    assert!(matches!(state, AgentState::BudgetExhausted));
    let state = state.on_reply(ModelReply::Answer("too late".to_string()));
    assert!(matches!(state, AgentState::BudgetExhausted));
}

#[test]
fn feeding_back_without_a_dispatch_changes_nothing() {
    let state = AgentState::start().on_tool_output();
    assert!(matches!(state, AgentState::AwaitingModel { turns_used: 0 }));
}

#[test]
fn the_synthesis_is_asked_for_with_the_sub_answers() {
    let data = vec!["Requests 1 and 4 are urgent.".to_string(), "Customer 7 pays most.".to_string()];
    let expected = "
                You are a helpful assistant that can answer questions by based on data provided below.
               Use only the provided data, but use your own knowledge to analyze and determine what it means and come up with conclusions that would be useful to a business decision maker.

                Requests 1 and 4 are urgent.

Customer 7 pays most.

                ";
    assert_eq!(reduce_preamble(&data), expected);
}

#[test]
fn the_synthesis_of_nothing_has_no_data() {
    let preamble = reduce_preamble(&Vec::new());
    assert!(preamble.ends_with("business decision maker.\n\n                \n\n                "));
}

#[test]
fn the_split_is_one_request_to_the_model() {
    let sub_agents = catalog(&[("feature_requests", "finds requests"), ("customers", "finds customers")]);
    let request = surreal_agents::agents::map::map("What should I build next?", &sub_agents);
    assert_eq!(MODEL, "grok-3-mini");
    assert_eq!(request.model, "grok-3-mini");
    assert_eq!(request.prompt, "What should I build next?");
    assert_eq!(request.preamble, sub_agents.map_preamble());
    assert!(request
        .preamble
        .contains("- \"customers\": \"finds customers\"\n- \"feature_requests\": \"finds requests\""));
}

#[test]
fn a_table_is_asked_with_both_tools_and_ten_turns() {
    let configured = SurrealConfig {
        host: "db.example.com".to_string(),
        username: "root".to_string(),
        password: "pw".to_string(),
        namespace: "prod".to_string(),
        database: "crm".to_string(),
    };
    let agent = question("Who pays most?", "customers", "This table lists customers.", &configured);
    assert_eq!(agent.request.model, "grok-3-mini");
    assert_eq!(agent.request.prompt, "Who pays most?");
    assert_eq!(agent.request.preamble, query_preamble("customers", "This table lists customers."));
    assert_eq!(agent.max_turns, 10);
    assert_eq!(agent.schema_tool.name(), "surreal_schema");
    assert_eq!(agent.select_tool.name(), "surreal_select");
    for target in [agent.schema_tool.connection(), agent.select_tool.connection()] {
        assert_eq!(target.url, "db.example.com");
        assert_eq!(target.user, "root");
        assert_eq!(target.pass, "pw");
        assert_eq!(target.namespace, "prod");
        assert_eq!(target.db, "crm");
    }
}

#[test]
fn the_synthesis_is_one_request_to_the_model() {
    let data = vec!["first".to_string(), "second".to_string()];
    let preamble = reduce_preamble(&data);
    let request = reduce("What should I build next?", data);
    assert_eq!(request.model, "grok-3-mini");
    assert_eq!(request.prompt, "What should I build next?");
    assert_eq!(request.preamble, preamble);
    assert!(request.preamble.contains("first\n\nsecond"));
}
