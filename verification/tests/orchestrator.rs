use home_llm_bot::error::BotError;
use home_llm_bot::json::Json;
use home_llm_bot::orchestrator::{
    build_system_prompt, extract_text_response, parse_function_calls, AgentTurn, Orchestrator,
    TurnAction, MAX_TOOL_ITERATIONS,
};
use home_llm_bot::plugins::{FunctionDef, PluginRegistry};
use home_llm_bot::state::ConversationState;

fn json(text: &str) -> Json {
    Json::parse(text).unwrap()
}

fn make_registry() -> PluginRegistry {
    let mut registry = PluginRegistry::new();
    registry.register(vec![
        FunctionDef {
            name: "list_entities".to_string(),
            description: "List HA entities".to_string(),
            parameters: json(r#"{"type": "object", "properties": {}}"#),
        },
        FunctionDef {
            name: "turn_off_light".to_string(),
            description: "Turn off a light".to_string(),
            parameters: json(
                r#"{"type": "object", "properties": {"entity_id": {"type": "string"}}}"#,
            ),
        },
    ]);
    registry
}

fn tool_calls_response(calls: &[(&str, &str, &str)]) -> Json {
    let mut items = Vec::new();
    for (id, name, args) in calls {
        items.push(Json::Object(vec![
            ("id".to_string(), Json::Str(id.to_string())),
            ("type".to_string(), Json::Str("function".to_string())),
            (
                "function".to_string(),
                Json::Object(vec![
                    ("name".to_string(), Json::Str(name.to_string())),
                    ("arguments".to_string(), Json::Str(args.to_string())),
                ]),
            ),
        ]));
    }
    Json::Object(vec![(
        "choices".to_string(),
        Json::Array(vec![Json::Object(vec![(
            "message".to_string(),
            Json::Object(vec![
                ("content".to_string(), Json::Null),
                ("tool_calls".to_string(), Json::Array(items)),
            ]),
        )])]),
    )])
}

fn text_response(text: &str) -> Json {
    Json::Object(vec![(
        "choices".to_string(),
        Json::Array(vec![Json::Object(vec![(
            "message".to_string(),
            Json::Object(vec![("content".to_string(), Json::Str(text.to_string()))]),
        )])]),
    )])
}

/// Runs one turn against LLM responses given in sequence (a fallback text
/// once they run out) and a tool that always answers `{"status": "ok"}`.
/// Returns the outcome, the number of LLM calls and the tools of each call.
fn run_turn(
    orchestrator: &Orchestrator,
    state: &mut ConversationState,
    message: &str,
    sender: Option<&str>,
    responses: Vec<Json>,
) -> (Result<String, BotError>, usize, Vec<usize>) {
    let (mut turn, mut action) = orchestrator.process_message(message, sender, state);
    let mut calls = 0;
    let mut tool_counts = Vec::new();
    loop {
        action = match action {
            TurnAction::CallLlm { tools, .. } => {
                tool_counts.push(tools.len());
                let response = if calls < responses.len() {
                    responses[calls].clone()
                } else {
                    text_response("fallback response")
                };
                calls += 1;
                turn.step(state, Ok(response))
            }
            TurnAction::RunTool { .. } => turn.step(state, Ok(json(r#"{"status": "ok"}"#))),
            TurnAction::Persist { .. } => turn.step(state, Ok(Json::Null)),
            TurnAction::Finish(result) => return (result, calls, tool_counts),
        };
    }
}

fn orchestrator() -> Orchestrator {
    Orchestrator::new(make_registry(), "test-model".to_string(), None)
}

#[test]
fn test_parse_function_call_response_with_tools() {
    let response = json(
        r#"{"choices": [{"message": {"tool_calls": [{"id": "call_abc123", "type": "function",
            "function": {"name": "turn_on_light", "arguments": "{\"entity_id\": \"light.kitchen\"}"}}]}}]}"#,
    );
    let calls = parse_function_calls(&response).unwrap();
    assert_eq!(calls.len(), 1);
    assert_eq!(calls[0].id, "call_abc123");
    assert_eq!(calls[0].name, "turn_on_light");
    assert_eq!(
        calls[0].parameters.get("entity_id").and_then(|v| v.as_str()),
        Some("light.kitchen")
    );
}

#[test]
fn test_parse_function_call_response_no_tools() {
    let response = json(r#"{"choices": [{"message": {"content": "No function needed"}}]}"#);
    let calls = parse_function_calls(&response).unwrap();
    assert_eq!(calls.len(), 0);
}

#[test]
fn test_parse_function_call_response_empty_tool_calls_array() {
    let response = json(r#"{"choices": [{"message": {"content": "Just text", "tool_calls": []}}]}"#);
    let calls = parse_function_calls(&response).unwrap();
    assert_eq!(calls.len(), 0);
}

#[test]
fn test_extract_text_response() {
    let response = json(r#"{"choices": [{"message": {"content": "Lights are on!"}}]}"#);
    assert_eq!(extract_text_response(&response), "Lights are on!");
}

#[test]
fn test_extract_text_response_with_null_content() {
    let response = json(r#"{"choices": [{"message": {"content": null, "tool_calls": []}}]}"#);
    assert_eq!(extract_text_response(&response), "");
}

#[test]
fn test_agentic_loop_single_tool_call() {
    let mut state = ConversationState::new(1);
    let (result, calls, _) = run_turn(
        &orchestrator(),
        &mut state,
        "list my entities",
        None,
        vec![
            tool_calls_response(&[("call_1", "list_entities", "{}")]),
            text_response("Here are your entities."),
        ],
    );
    assert_eq!(result.unwrap(), "Here are your entities.");
    assert_eq!(calls, 2);
    assert_eq!(state.messages.len(), 3);
    assert_eq!(state.messages[0].role, "user");
    assert_eq!(state.messages[1].role, "tool");
    assert_eq!(state.messages[2].role, "assistant");
}

#[test]
fn test_agentic_loop_chained_calls() {
    let mut state = ConversationState::new(1);
    let (result, calls, _) = run_turn(
        &orchestrator(),
        &mut state,
        "turn off kitchen light",
        None,
        vec![
            tool_calls_response(&[("call_1", "list_entities", "{}")]),
            tool_calls_response(&[("call_2", "turn_off_light", "{\"entity_id\": \"light.kitchen\"}")]),
            text_response("Done! Kitchen light is off."),
        ],
    );
    assert_eq!(result.unwrap(), "Done! Kitchen light is off.");
    assert_eq!(calls, 3);
    assert_eq!(state.messages.len(), 4);
}

#[test]
fn test_agentic_loop_max_iterations() {
    let mut responses = Vec::new();
    for i in 0..MAX_TOOL_ITERATIONS {
        let id = format!("call_{}", i);
        responses.push(tool_calls_response(&[(id.as_str(), "list_entities", "{}")]));
    }
    responses.push(text_response("Forced final answer."));
    let mut state = ConversationState::new(1);
    let (result, calls, tool_counts) =
        run_turn(&orchestrator(), &mut state, "infinite tools", None, responses);
    assert_eq!(result.unwrap(), "Forced final answer.");
    assert_eq!(calls, MAX_TOOL_ITERATIONS + 1);
    // Every call but the last announces the two tools; the last announces none.
    assert_eq!(tool_counts, vec![2, 2, 2, 2, 2, 0]);
}

#[test]
fn test_agentic_loop_no_tools() {
    let mut state = ConversationState::new(1);
    let (result, calls, _) = run_turn(
        &orchestrator(),
        &mut state,
        "hello",
        None,
        vec![text_response("Hello! How can I help?")],
    );
    assert_eq!(result.unwrap(), "Hello! How can I help?");
    assert_eq!(calls, 1);
    assert_eq!(state.messages.len(), 2);
    assert_eq!(state.messages[0].role, "user");
    assert_eq!(state.messages[1].role, "assistant");
}

#[test]
fn test_sender_name_stored_in_state() {
    let mut state = ConversationState::new(1);
    run_turn(&orchestrator(), &mut state, "hello", Some("Alice"), vec![text_response("Hi there.")])
        .0
        .unwrap();
    assert_eq!(state.messages[0].sender_name, Some("Alice".to_string()));
}

#[test]
fn test_no_sender_name_is_none() {
    let mut state = ConversationState::new(1);
    run_turn(&orchestrator(), &mut state, "hello", None, vec![text_response("Hi.")]).0.unwrap();
    assert_eq!(state.messages[0].sender_name, None);
}

#[test]
fn opening_messages_show_signed_user_and_context() {
    let mut state = ConversationState::new(1);
    state.add_message("user", "earlier", Some("Bob".to_string()));
    state.add_message("assistant", "reply", None);
    let orch = Orchestrator::new(make_registry(), "m".to_string(), Some("hint line".to_string()));
    let (_turn, action) = orch.process_message("now", Some("Alice"), &mut state);
    match action {
        TurnAction::CallLlm { messages, tools, model } => {
            assert_eq!(model, "m");
            assert_eq!(messages.len(), 4);
            let content = |i: usize| messages[i].get("content").and_then(|c| c.as_str()).unwrap().to_string();
            assert!(content(0).ends_with("\n\nhint line"));
            assert_eq!(content(1), "[Bob] earlier");
            assert_eq!(content(2), "reply");
            assert_eq!(content(3), "[Alice] now");
            assert_eq!(tools.len(), 2);
            assert_eq!(
                tools[0].get("function").and_then(|f| f.get("name")).and_then(|n| n.as_str()),
                Some("list_entities")
            );
        }
        _ => panic!("expected an LLM call"),
    }
    assert_eq!(state.messages.len(), 3);
}

#[test]
fn context_window_limits_opening_messages() {
    let mut state = ConversationState::new(1);
    for i in 0..30 {
        state.add_message("assistant", &format!("m{}", i), None);
    }
    let (_turn, action) = orchestrator().process_message("x", None, &mut state);
    match action {
        TurnAction::CallLlm { messages, .. } => {
            // system + 20 earlier messages + the new one
            assert_eq!(messages.len(), 22);
            assert_eq!(messages[1].get("content").and_then(|c| c.as_str()), Some("m10"));
        }
        _ => panic!("expected an LLM call"),
    }
}

#[test]
fn tool_results_carry_the_call_id() {
    let mut state = ConversationState::new(1);
    let orch = orchestrator();
    let (mut turn, _) = orch.process_message("go", None, &mut state);
    let action = turn.step(
        &mut state,
        Ok(tool_calls_response(&[("id_a", "list_entities", "{}"), ("id_b", "turn_off_light", "{}")])),
    );
    match action {
        TurnAction::RunTool { name, .. } => assert_eq!(name, "list_entities"),
        _ => panic!("expected a tool run"),
    }
    let action = turn.step(&mut state, Err(BotError::Config("boom".to_string())));
    match action {
        TurnAction::RunTool { name, .. } => assert_eq!(name, "turn_off_light"),
        _ => panic!("expected a tool run"),
    }
    assert_eq!(state.messages[1].content, "Error: Configuration error: boom");
    let action = turn.step(&mut state, Ok(json(r#"{"a":1}"#)));
    match action {
        TurnAction::CallLlm { messages, .. } => {
            let n = messages.len();
            assert_eq!(messages[n - 2].get("tool_call_id").and_then(|c| c.as_str()), Some("id_a"));
            assert_eq!(messages[n - 1].get("tool_call_id").and_then(|c| c.as_str()), Some("id_b"));
            assert_eq!(messages[n - 1].get("content").and_then(|c| c.as_str()), Some("{\"a\":1}"));
            assert_eq!(messages[n - 3].get("tool_calls").and_then(|c| c.as_array()).map(|a| a.len()), Some(2));
        }
        _ => panic!("expected an LLM call"),
    }
    assert_eq!(turn.llm_calls(), 2);
}

#[test]
fn llm_failure_ends_the_turn() {
    let mut state = ConversationState::new(1);
    let (mut turn, _) = orchestrator().process_message("hi", None, &mut state);
    let action = turn.step(&mut state, Err(BotError::LMStudio("down".to_string())));
    match action {
        TurnAction::Finish(Err(BotError::LMStudio(m))) => assert_eq!(m, "down"),
        _ => panic!("expected the failure"),
    }
    assert!(turn.is_done());
    assert_eq!(state.messages.len(), 1);
}

#[test]
fn unreadable_tool_call_is_an_error() {
    let mut state = ConversationState::new(1);
    let (mut turn, _) = orchestrator().process_message("hi", None, &mut state);
    let action = turn.step(&mut state, Ok(tool_calls_response(&[("c", "list_entities", "not json")])));
    match action {
        TurnAction::Finish(Err(BotError::Json(_))) => {}
        _ => panic!("expected a JSON error"),
    }
}

#[test]
fn missing_function_name_is_an_error() {
    let response = json(r#"{"choices": [{"message": {"tool_calls": [{"id": "x", "function": {"arguments": "{}"}}]}}]}"#);
    match parse_function_calls(&response) {
        Err(BotError::LMStudio(m)) => assert_eq!(m, "Missing function name in tool_call"),
        _ => panic!("expected an error"),
    }
    let response = json(r#"{"choices": [{"message": {"tool_calls": [{"function": {"name": "f"}}]}}]}"#);
    match parse_function_calls(&response) {
        Err(BotError::LMStudio(m)) => assert_eq!(m, "Missing function arguments"),
        _ => panic!("expected an error"),
    }
    let response = json(r#"{"choices": [{"message": {"tool_calls": [{"function": {"name": "f", "arguments": "{}"}}]}}]}"#);
    let calls = parse_function_calls(&response).unwrap();
    assert_eq!(calls[0].id, "unknown");
}

#[test]
fn system_prompt_with_and_without_hints() {
    let base = build_system_prompt(None);
    assert!(base.starts_with("You are a home automation assistant for a family. You control devices via Home Assistant tools.\n\nIMPORTANT RULES:\n- Always respond"));
    assert!(base.ends_with("- Keep responses short and conversational."));
    let with = build_system_prompt(Some("switch.x=Cave"));
    assert_eq!(with, format!("{}\n\nswitch.x=Cave", base));
}

#[test]
fn persisted_conversation_saves_before_and_after() {
    // Without a database the first action is an LLM call and the last a finish;
    // the save steps are covered by the contract of `step`.
    let mut state = ConversationState::new(7);
    let (mut turn, action) = orchestrator().process_message("hi", None, &mut state);
    assert!(matches!(action, TurnAction::CallLlm { .. }));
    let action = turn.step(&mut state, Ok(text_response("yo")));
    match action {
        TurnAction::Finish(Ok(s)) => assert_eq!(s, "yo"),
        _ => panic!("expected the reply"),
    }
}
