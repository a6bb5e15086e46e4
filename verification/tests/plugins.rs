use home_llm_bot::error::BotError;
use home_llm_bot::json::Json;
use home_llm_bot::plugins::home_assistant::{compact_state, search_entities, HaRequest, HomeAssistantPlugin};
use home_llm_bot::plugins::lm_studio::{chat_completions_url, chat_request_body, llm_http_error};
use home_llm_bot::plugins::mcp::{call_tool_request, list_tools_request, mcp_url, tool_call_result, McpPlugin};
use home_llm_bot::plugins::whisper::{transcription_text, transcriptions_url, whisper_http_error};
use home_llm_bot::plugins::{http_failure_text, FunctionDef, PluginRegistry};

fn json(text: &str) -> Json {
    Json::parse(text).unwrap()
}

fn plugin() -> HomeAssistantPlugin {
    HomeAssistantPlugin::new("http://localhost:8123".into(), "token".into())
}

#[test]
fn test_available_functions_returns_six() {
    assert_eq!(plugin().available_functions().len(), 6);
}

#[test]
fn test_function_names() {
    let names: Vec<_> = plugin().available_functions().into_iter().map(|f| f.name).collect();
    assert!(names.contains(&"turn_on_device".to_string()));
    assert!(names.contains(&"turn_off_device".to_string()));
    assert!(names.contains(&"search_entities".to_string()));
    assert!(names.contains(&"call_service".to_string()));
}

#[test]
fn test_execute_unknown_function_returns_error() {
    let result = plugin().plan("nonexistent_fn", &json("{}"));
    assert!(result.is_err());
    assert!(result.err().unwrap().to_string().contains("Unknown function"));
}

#[test]
fn ha_schemas_are_announced_with_required_parameters() {
    let functions = plugin().available_functions();
    let required = functions[3].parameters.get("required").unwrap().to_text().unwrap();
    assert_eq!(required, "[\"entity_id\",\"temperature\"]");
    let schema = functions[0].parameters.to_text().unwrap();
    assert!(schema.contains("\"brightness_pct\""));
}

#[test]
fn turn_on_light_infers_domain_and_brightness() {
    match plugin().plan("turn_on_device", &json(r#"{"entity_id": "light.kitchen", "brightness_pct": 55.7}"#)).unwrap() {
        HaRequest::CallService { domain, service, body, number } => {
            assert_eq!(domain, "light");
            assert_eq!(service, "turn_on");
            assert_eq!(body.to_text().unwrap(), r#"{"entity_id":"light.kitchen"}"#);
            let n = number.unwrap();
            assert_eq!(n.key, "brightness_pct");
            assert_eq!(n.number, Json::Number("55.7".to_string()));
            assert!(n.as_integer);
        }
        _ => panic!("expected a service call"),
    }
    match plugin().plan("turn_on_device", &json(r#"{"entity_id": "switch.cave", "brightness_pct": 10}"#)).unwrap() {
        HaRequest::CallService { domain, number, .. } => {
            assert_eq!(domain, "switch");
            assert!(number.is_none());
        }
        _ => panic!("expected a service call"),
    }
    match plugin().plan("turn_off_device", &json(r#"{"entity_id": "noprefix"}"#)).unwrap() {
        HaRequest::CallService { domain, service, .. } => {
            assert_eq!(domain, "noprefix");
            assert_eq!(service, "turn_off");
        }
        _ => panic!("expected a service call"),
    }
}

#[test]
fn ha_missing_parameters_are_errors() {
    let msg = |r: Result<HaRequest, BotError>| match r {
        Err(BotError::HomeAssistant(m)) => m,
        _ => panic!("expected an error"),
    };
    assert_eq!(msg(plugin().plan("turn_on_device", &json("{}"))), "Missing entity_id");
    assert_eq!(msg(plugin().plan("set_thermostat", &json(r#"{"entity_id": "climate.a"}"#))), "Missing temperature");
    assert_eq!(msg(plugin().plan("call_service", &json(r#"{"domain": "scene"}"#))), "Missing service");
    assert_eq!(msg(plugin().plan("call_service", &json("{}"))), "Missing domain");
}

#[test]
fn ha_call_service_merges_data() {
    let params = json(r#"{"domain": "light", "service": "toggle", "entity_id": "light.a",
        "data": {"brightness": 10, "entity_id": "light.b"}}"#);
    match plugin().plan("call_service", &params).unwrap() {
        HaRequest::CallService { domain, service, body, number } => {
            assert_eq!(domain, "light");
            assert_eq!(service, "toggle");
            assert_eq!(body.to_text().unwrap(), r#"{"brightness":10,"entity_id":"light.b"}"#);
            assert!(number.is_none());
        }
        _ => panic!("expected a service call"),
    }
}

#[test]
fn ha_thermostat_search_and_state_requests() {
    match plugin().plan("set_thermostat", &json(r#"{"entity_id": "climate.a", "temperature": 21}"#)).unwrap() {
        HaRequest::CallService { domain, service, number, .. } => {
            assert_eq!(domain, "climate");
            assert_eq!(service, "set_temperature");
            let n = number.unwrap();
            assert_eq!(n.key, "temperature");
            assert!(!n.as_integer);
        }
        _ => panic!("expected a service call"),
    }
    match plugin().plan("search_entities", &json(r#"{"query": "Sala"}"#)).unwrap() {
        HaRequest::SearchEntities { domain, query } => {
            assert_eq!(domain, None);
            assert_eq!(query, Some("Sala".to_string()));
        }
        _ => panic!("expected a search"),
    }
    match plugin().plan("get_entity_state", &json(r#"{"entity_id": "sensor.t"}"#)).unwrap() {
        HaRequest::GetState { entity_id } => assert_eq!(entity_id, "sensor.t"),
        _ => panic!("expected a state request"),
    }
}

#[test]
fn ha_urls_and_header() {
    let p = plugin();
    assert_eq!(p.auth_header(), "Bearer token");
    assert_eq!(p.service_url("light", "turn_on"), "http://localhost:8123/api/services/light/turn_on");
    assert_eq!(p.state_url("light.a"), "http://localhost:8123/api/states/light.a");
    assert_eq!(p.states_url(), "http://localhost:8123/api/states");
}

#[test]
fn ha_compact_state_keeps_key_attributes() {
    let full = json(r#"{"entity_id": "light.a", "state": "on", "last_changed": "t",
        "attributes": {"friendly_name": "Sala", "brightness": 200, "icon": "mdi:x", "device_class": null}}"#);
    let summary = compact_state(&full);
    assert_eq!(
        summary.to_text().unwrap(),
        r#"{"brightness":200,"entity_id":"light.a","friendly_name":"Sala","last_changed":"t","state":"on"}"#
    );
}

#[test]
fn ha_search_filters_by_domain_and_query() {
    let states = json(r#"[
        {"entity_id": "light.sala", "state": "on", "attributes": {"friendly_name": "Sala 1"}},
        {"entity_id": "switch.sala", "state": "off", "attributes": {"friendly_name": "Tomada"}},
        {"entity_id": "light.quarto", "state": "off", "attributes": {"friendly_name": "Quarto SALA"}}
    ]"#);
    let lights = search_entities(&states, Some("light"), Some("sala"));
    assert_eq!(
        lights.to_text().unwrap(),
        r#"[{"entity_id":"light.sala","friendly_name":"Sala 1","state":"on"},{"entity_id":"light.quarto","friendly_name":"Quarto SALA","state":"off"}]"#
    );
    let all = search_entities(&states, None, None);
    assert_eq!(all.as_array().unwrap().len(), 3);
    let none = search_entities(&json(r#"{"not": "an array"}"#), None, None);
    assert_eq!(none.to_text().unwrap(), "[]");
}

#[test]
fn ha_search_returns_at_most_twenty() {
    let mut items = Vec::new();
    for i in 0..30 {
        items.push(format!(r#"{{"entity_id": "light.l{}", "state": "on"}}"#, i));
    }
    let states = json(&format!("[{}]", items.join(",")));
    let found = search_entities(&states, Some("light"), None);
    let found = found.as_array().unwrap();
    assert_eq!(found.len(), 20);
    assert_eq!(found[19].get("entity_id").and_then(|v| v.as_str()), Some("light.l19"));
}

#[test]
fn test_request_with_tools_includes_tool_choice() {
    let tools = vec![json(r#"{"type": "function", "function": {"name": "test_fn", "description": "A test", "parameters": {}}}"#)];
    let expected_tools_count = 1;
    assert_eq!(tools.len(), expected_tools_count);
    let body = chat_request_body("m", vec![], tools);
    assert_eq!(body.get("tool_choice").and_then(|v| v.as_str()), Some("auto"));
    assert_eq!(body.get("tools").and_then(|v| v.as_array()).map(|a| a.len()), Some(1));
    let plain = chat_request_body("m", vec![], vec![]);
    assert!(plain.get("tools").is_none());
    assert!(plain.get("tool_choice").is_none());
    assert_eq!(plain.to_text().unwrap(), r#"{"messages":[],"model":"m"}"#);
}

#[test]
fn lm_studio_url_and_error() {
    assert_eq!(chat_completions_url("http://x:1234"), "http://x:1234/v1/chat/completions");
    match llm_http_error("500 Internal Server Error", "oops") {
        BotError::LMStudio(m) => assert_eq!(m, "HTTP 500 Internal Server Error: oops"),
        _ => panic!("expected an LM Studio error"),
    }
    assert_eq!(http_failure_text("404 Not Found", ""), "HTTP 404 Not Found: ");
}

#[test]
fn test_function_def_maps_input_schema() {
    let input_schema = json(r#"{"type": "object", "properties": {"name": {"type": "string"}, "area": {"type": "string"}}}"#);
    let def = FunctionDef {
        name: "HassTurnOn".to_string(),
        description: "Turns on a device".to_string(),
        parameters: input_schema.clone(),
    };
    assert_eq!(def.name, "HassTurnOn");
    assert_eq!(
        def.parameters.get("properties").and_then(|p| p.get("name")).and_then(|n| n.get("type")).and_then(|t| t.as_str()),
        Some("string")
    );
}

#[test]
fn openai_tool_wraps_the_definition() {
    let def = FunctionDef { name: "f".into(), description: "d".into(), parameters: json("{}") };
    assert_eq!(
        def.to_openai_tool().to_text().unwrap(),
        r#"{"function":{"description":"d","name":"f","parameters":{}},"type":"function"}"#
    );
}

#[test]
fn mcp_listing_becomes_functions() {
    let listing = json(r#"{"result": {"tools": [
        {"name": "HassTurnOn", "description": "On", "inputSchema": {"type": "object"}},
        {"description": "nameless"}
    ]}}"#);
    let plugin = McpPlugin::init(mcp_url("http://ha:8123"), "tok".into(), &listing).unwrap();
    assert_eq!(plugin.url, "http://ha:8123/api/mcp");
    let functions = plugin.available_functions();
    assert_eq!(functions.len(), 2);
    assert_eq!(functions[0].name, "HassTurnOn");
    assert_eq!(functions[1].name, "unknown");
    assert_eq!(functions[1].parameters, Json::Null);
    match McpPlugin::init("u".into(), "t".into(), &json(r#"{"result": {}}"#)) {
        Err(BotError::HomeAssistant(m)) => assert_eq!(m, "MCP tools/list returned no tools array"),
        _ => panic!("expected an error"),
    }
    match McpPlugin::init("u".into(), "t".into(), &json(r#"{"result": {"tools": []}}"#)) {
        Err(BotError::HomeAssistant(m)) => assert_eq!(m, "MCP tools/list returned no tools"),
        _ => panic!("expected an error"),
    }
}

#[test]
fn mcp_requests_are_json_rpc() {
    assert_eq!(
        list_tools_request().to_text().unwrap(),
        r#"{"id":1,"jsonrpc":"2.0","method":"tools/list","params":{}}"#
    );
    assert_eq!(
        call_tool_request(1234567, "HassTurnOn", json(r#"{"name":"Sala"}"#)).to_text().unwrap(),
        r#"{"id":1234567,"jsonrpc":"2.0","method":"tools/call","params":{"arguments":{"name":"Sala"},"name":"HassTurnOn"}}"#
    );
}

#[test]
fn mcp_results_are_read() {
    let parsed = tool_call_result(&json(r#"{"result": {"content": [{"type": "text", "text": "{\"success\": true}"}]}}"#)).unwrap();
    assert_eq!(parsed.to_text().unwrap(), r#"{"success":true}"#);
    let plain = tool_call_result(&json(r#"{"result": {"content": [{"text": "Turned on"}]}}"#)).unwrap();
    assert_eq!(plain.to_text().unwrap(), r#"{"result":"Turned on"}"#);
    let empty = tool_call_result(&json(r#"{"result": {}}"#)).unwrap();
    assert_eq!(empty.to_text().unwrap(), r#"{"result":"ok"}"#);
    match tool_call_result(&json(r#"{"error": {"code": -32601, "message": "nope"}}"#)) {
        Err(BotError::HomeAssistant(m)) => assert_eq!(m, r#"MCP error: {"code":-32601,"message":"nope"}"#),
        _ => panic!("expected an MCP error"),
    }
}

#[test]
fn whisper_text_is_read() {
    assert_eq!(transcriptions_url("http://w"), "http://w/v1/audio/transcriptions");
    assert_eq!(transcription_text(&json(r#"{"text": "ola"}"#)).unwrap(), "ola");
    match transcription_text(&json(r#"{"txt": 1}"#)) {
        Err(BotError::Whisper(m)) => assert_eq!(m, "Missing 'text' field in response"),
        _ => panic!("expected an error"),
    }
    match whisper_http_error("400 Bad Request", "bad") {
        BotError::Whisper(m) => assert_eq!(m, "HTTP 400 Bad Request: bad"),
        _ => panic!("expected a Whisper error"),
    }
}

#[test]
fn registry_dispatches_to_first_offering_plugin() {
    let f = |n: &str| FunctionDef { name: n.into(), description: String::new(), parameters: Json::Null };
    let mut registry = PluginRegistry::new();
    registry.register(vec![f("a"), f("b")]);
    registry.register(vec![f("b"), f("c")]);
    assert_eq!(registry.len(), 2);
    let all: Vec<String> = registry.get_all_functions().into_iter().map(|d| d.name).collect();
    assert_eq!(all, vec!["a", "b", "b", "c"]);
    assert_eq!(registry.execute("b").unwrap(), 0);
    assert_eq!(registry.execute("c").unwrap(), 1);
    match registry.execute("zzz") {
        Err(e) => assert_eq!(e.to_string(), "Configuration error: Function not found: zzz"),
        Ok(_) => panic!("expected an error"),
    }
}

#[test]
fn ha_schemas_require_only_their_own_properties() {
    let functions = plugin().available_functions();
    for (i, f) in functions.iter().enumerate() {
        for g in &functions[i + 1..] {
            assert_ne!(f.name, g.name);
        }
        assert_eq!(f.parameters.get("type").and_then(|t| t.as_str()), Some("object"));
        let properties = f.parameters.get("properties").unwrap();
        for name in f.parameters.get("required").unwrap().as_array().unwrap() {
            assert!(properties.get(name.as_str().unwrap()).is_some());
        }
    }
}
