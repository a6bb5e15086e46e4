//! Home Assistant's MCP server at `/api/mcp`: the JSON-RPC requests sent to
//! it, the tools it offers, and what is read of its answers.
use vstd::prelude::*;

use crate::error::BotError;
use crate::json::{
    items_view, json_string, json_text, jstr, lemma_items_view, obj1, obj2, obj4, parsed_json, Json,
    JsonValue,
};
use crate::plugins::{defs_view, FunctionDef, FunctionDefView};
use crate::text::{decimal, decimal_text};

verus! {

/// The tools offered by Home Assistant's MCP server.
pub struct McpPlugin {
    /// The URL of the MCP endpoint.
    pub url: String,
    pub token: String,
    pub tools: Vec<FunctionDef>,
}

/// The URL of the MCP endpoint of the Home Assistant at `ha_url`.
pub fn mcp_url(ha_url: &str) -> (url: String)
    ensures
        url@ == ha_url@ + "/api/mcp"@,
{
    let mut url = String::from_str(ha_url);
    url.append("/api/mcp");
    url
}

/// A JSON-RPC 2.0 request.
pub open spec fn rpc_request_view(id: u64, method: Seq<char>, params: JsonValue) -> JsonValue {
    JsonValue::Object(
        seq![
            ("jsonrpc"@, jstr("2.0"@)),
            ("id"@, JsonValue::Number(decimal(id as nat))),
            ("method"@, jstr(method)),
            ("params"@, params),
        ],
    )
}

/// Builds a JSON-RPC 2.0 request.
pub fn rpc_request(id: u64, method: &str, params: Json) -> (request: Json)
    ensures
        request@ == rpc_request_view(id, method@, params@),
{
    obj4(
        "jsonrpc",
        json_string("2.0"),
        "id",
        Json::Number(decimal_text(id)),
        "method",
        json_string(method),
        "params",
        params,
    )
}

/// The request that lists the server's tools (it is the session's first, id 1).
pub fn list_tools_request() -> (request: Json)
    ensures
        request@ == rpc_request_view(1, "tools/list"@, JsonValue::Object(Seq::empty())),
{
    let params = Json::Object(Vec::new());
    assert(crate::json::members_view(Seq::<(String, Json)>::empty()) =~= Seq::empty());
    rpc_request(1, "tools/list", params)
}

/// The request that calls the tool `name` with `arguments`.
pub fn call_tool_request(id: u64, name: &str, arguments: Json) -> (request: Json)
    ensures
        request@ == rpc_request_view(
            id,
            "tools/call"@,
            JsonValue::Object(seq![("name"@, jstr(name@)), ("arguments"@, arguments@)]),
        ),
{
    rpc_request(id, "tools/call", obj2("name", json_string(name), "arguments", arguments))
}

pub open spec fn str_or(v: JsonValue, default: Seq<char>) -> Seq<char> {
    match v.as_str() {
        Some(s) => s,
        None => default,
    }
}

/// A tool of the listing as a function for the LLM: its name (`unknown`
/// where there is none), its description (empty where there is none) and its
/// input schema as the parameters.
pub open spec fn listed_function(tool: JsonValue) -> FunctionDefView {
    FunctionDefView {
        name: str_or(tool.field("name"@), "unknown"@),
        description: str_or(tool.field("description"@), Seq::empty()),
        parameters: tool.field("inputSchema"@),
    }
}

/// The tools of a `tools/list` answer: its `result.tools` where that is an array.
pub open spec fn listed_tools(response: JsonValue) -> Option<Seq<JsonValue>> {
    response.field("result"@).field("tools"@).as_array()
}

/// Each tool of a listing is offered as a function under the tool's name
/// (`unknown` where it has none), with its description (empty where it has
/// none), and with the tool's `inputSchema` member as its parameters (`null`
/// only where the tool has no such member).
pub proof fn lemma_listed_tools_offered(listing: JsonValue, i: int)
    requires
        listed_tools(listing) matches Some(tools) && 0 <= i < tools.len(),
    ensures
        ({
            let tools = listed_tools(listing)->Some_0;
            let f = tools.map_values(|t: JsonValue| listed_function(t))[i];
            &&& tools.map_values(|t: JsonValue| listed_function(t)).len() == tools.len()
            &&& match tools[i].get("inputSchema"@) {
                Some(schema) => f.parameters == schema,
                None => f.parameters == JsonValue::Null,
            }
            &&& match tools[i].get("name"@) {
                Some(JsonValue::Str(name)) => f.name == name,
                _ => f.name == "unknown"@,
            }
            &&& match tools[i].get("description"@) {
                Some(JsonValue::Str(text)) => f.description == text,
                _ => f.description == Seq::<char>::empty(),
            }
        }),
{
}

/// A JSON-RPC request names version 2.0, its id (as a number), its method
/// and its parameters; a tool call's parameters name the tool and carry the
/// arguments.
pub proof fn lemma_rpc_request_fields(id: u64, method: Seq<char>, params: JsonValue)
    ensures
        rpc_request_view(id, method, params).field("jsonrpc"@) == jstr("2.0"@),
        rpc_request_view(id, method, params).field("id"@) == JsonValue::Number(decimal(id as nat)),
        rpc_request_view(id, method, params).field("method"@) == jstr(method),
        rpc_request_view(id, method, params).field("params"@) == params,
{
    reveal_strlit("jsonrpc");
    reveal_strlit("id");
    reveal_strlit("method");
    reveal_strlit("params");
    let members = rpc_request_view(id, method, params)->Object_0;
    assert(members[0].0.len() != "id"@.len() && members[0].0.len() != "method"@.len()
        && members[0].0.len() != "params"@.len());
    assert(members[1].0.len() != "method"@.len() && members[1].0.len() != "params"@.len());
    assert(members[2].0[0] != "params"@[0]);
    crate::json::lemma_lookup_at(members, "jsonrpc"@, 0);
    crate::json::lemma_lookup_at(members, "id"@, 1);
    crate::json::lemma_lookup_at(members, "method"@, 2);
    crate::json::lemma_lookup_at(members, "params"@, 3);
}

/// A tool's answer without a JSON-RPC error gives the `text` of the first
/// item of its `result.content`: the document that text holds where it is
/// JSON text, else `{"result": text}`.
pub proof fn lemma_call_outcome_text(
    response: JsonValue,
    result: JsonValue,
    content: Seq<JsonValue>,
    text: Seq<char>,
    r: Result<JsonValue, BotError>,
)
    requires
        response.get("error"@) is None,
        response.get("result"@) == Some(result),
        result.get("content"@) == Some(JsonValue::Array(content)),
        content.len() > 0,
        content[0].get("text"@) == Some(JsonValue::Str(text)),
        call_outcome(response, r),
    ensures
        r == match parsed_json(text) {
            Some(v) => Ok::<JsonValue, BotError>(v),
            None => Ok(JsonValue::Object(seq![("result"@, jstr(text))])),
        },
{
}

impl McpPlugin {
    /// The plugin for the MCP endpoint at `url`, offering the tools of the
    /// server's answer `listing` to `tools/list`. A listing without a tools
    /// array, or with an empty one, is an error: the server offers nothing.
    pub fn init(url: String, token: String, listing: &Json) -> (r: Result<McpPlugin, BotError>)
        ensures
            match listed_tools(listing@) {
                Some(tools) => if tools.len() > 0 {
                    r matches Ok(p) && p.url@ == url@ && p.token@ == token@ && defs_view(p.tools@)
                        == tools.map_values(|t: JsonValue| listed_function(t))
                } else {
                    r matches Err(e) && (e matches BotError::HomeAssistant(m) && m@
                        == "MCP tools/list returned no tools"@)
                },
                None => r matches Err(e) && (e matches BotError::HomeAssistant(m) && m@
                    == "MCP tools/list returned no tools array"@),
            },
    {
        let tools_raw = match listing.get("result") {
            Some(result) => match result.get("tools") {
                Some(tools) => tools.as_array(),
                None => None,
            },
            None => None,
        };
        let tools_raw = match tools_raw {
            Some(t) => t,
            None => {
                return Err(
                    BotError::HomeAssistant(String::from_str("MCP tools/list returned no tools array")),
                );
            },
        };
        let ghost tv = items_view(tools_raw@);
        proof {
            lemma_items_view(tools_raw@);
        }
        if tools_raw.len() == 0 {
            return Err(BotError::HomeAssistant(String::from_str("MCP tools/list returned no tools")));
        }
        let mut tools: Vec<FunctionDef> = Vec::new();
        let mut i: usize = 0;
        while i < tools_raw.len()
            invariant
                i <= tools_raw@.len(),
                tv == items_view(tools_raw@),
                tv.len() == tools_raw@.len(),
                forall|k: int| 0 <= k < tools_raw@.len() ==> #[trigger] tv[k] == tools_raw@[k]@,
                defs_view(tools@) == tv.take(i as int).map_values(|t: JsonValue| listed_function(t)),
            decreases tools_raw@.len() - i,
        {
            let f = function_from_tool(&tools_raw[i]);
            let ghost before = tools@;
            tools.push(f);
            proof {
                assert(defs_view(tools@) =~= defs_view(before).push(f@));
                assert(tv.take(i + 1).map_values(|t: JsonValue| listed_function(t)) =~= tv.take(
                    i as int,
                ).map_values(|t: JsonValue| listed_function(t)).push(listed_function(tv[i as int])));
            }
            i = i + 1;
        }
        assert(tv.take(i as int) =~= tv);
        Ok(McpPlugin { url, token, tools })
    }

    /// The functions offered to the LLM: the server's tools.
    pub fn available_functions(&self) -> (functions: Vec<FunctionDef>)
        ensures
            defs_view(functions@) == defs_view(self.tools@),
    {
        let mut functions: Vec<FunctionDef> = Vec::new();
        let mut i: usize = 0;
        while i < self.tools.len()
            invariant
                i <= self.tools@.len(),
                defs_view(functions@) == defs_view(self.tools@.take(i as int)),
            decreases self.tools@.len() - i,
        {
            let f = self.tools[i].clone();
            let ghost before = functions@;
            functions.push(f);
            proof {
                assert(defs_view(functions@) =~= defs_view(before).push(f@));
                assert(defs_view(self.tools@.take(i + 1)) =~= defs_view(self.tools@.take(i as int)).push(
                    self.tools@[i as int]@,
                ));
            }
            i = i + 1;
        }
        assert(self.tools@.take(i as int) =~= self.tools@);
        functions
    }
}

fn text_or<'a>(v: Option<&'a Json>, default: &'a str) -> (s: &'a str)
    ensures
        s@ == match v {
            Some(j) => str_or(j@, default@),
            None => default@,
        },
{
    match v {
        Some(j) => match j.as_str() {
            Some(s) => s,
            None => default,
        },
        None => default,
    }
}

fn function_from_tool(tool: &Json) -> (f: FunctionDef)
    ensures
        f@ == listed_function(tool@),
{
    proof {
        reveal_strlit("");
    }
    let name_field = tool.get("name");
    let name = text_or(name_field, "unknown");
    assert(name@ == str_or(tool@.field("name"@), "unknown"@));
    let description_field = tool.get("description");
    let description = text_or(description_field, "");
    assert(description@ == str_or(tool@.field("description"@), Seq::empty()));
    let parameters = match tool.get("inputSchema") {
        Some(s) => s.clone(),
        None => Json::Null,
    };
    FunctionDef {
        name: String::from_str(name),
        description: String::from_str(description),
        parameters,
    }
}

/// The text of the first item of the answer's `result.content`, where it is a string.
pub open spec fn first_content_text(response: JsonValue) -> Option<Seq<char>> {
    match response.field("result"@).field("content"@).as_array() {
        Some(items) => if items.len() > 0 {
            items[0].field("text"@).as_str()
        } else {
            None
        },
        None => None,
    }
}

/// What a `tools/call` answer yields: a JSON-RPC error is an error; else the
/// first text of the content, read as JSON where it is JSON text and wrapped
/// as `{"result": text}` where it is not; else `{"result": "ok"}`.
pub open spec fn call_outcome(response: JsonValue, r: Result<JsonValue, BotError>) -> bool {
    match response.get("error"@) {
        Some(err) => match json_text(err) {
            Some(t) => r matches Err(e) && (e matches BotError::HomeAssistant(m) && m@ == "MCP error: "@
                + t),
            None => r matches Err(e) && e is Json,
        },
        None => match first_content_text(response) {
            Some(text) => match parsed_json(text) {
                Some(v) => r == Ok::<JsonValue, BotError>(v),
                None => r == Ok::<JsonValue, BotError>(
                    JsonValue::Object(seq![("result"@, jstr(text))]),
                ),
            },
            None => r == Ok::<JsonValue, BotError>(
                JsonValue::Object(seq![("result"@, jstr("ok"@))]),
            ),
        },
    }
}

/// Reads the answer to a `tools/call` request.
pub fn tool_call_result(response: &Json) -> (r: Result<Json, BotError>)
    ensures
        call_outcome(
            response@,
            match r {
                Ok(v) => Ok(v@),
                Err(e) => Err(e),
            },
        ),
{
    match response.get("error") {
        Some(err) => {
            let t = err.to_text()?;
            let mut m = String::from_str("MCP error: ");
            m.append(t.as_str());
            return Err(BotError::HomeAssistant(m));
        },
        None => {},
    }
    let text = match response.get("result") {
        Some(result) => match result.get("content") {
            Some(content) => match content.as_array() {
                Some(items) => {
                    proof {
                        lemma_items_view(items@);
                    }
                    if items.len() > 0 {
                        match items[0].get("text") {
                            Some(t) => t.as_str(),
                            None => None,
                        }
                    } else {
                        None
                    }
                },
                None => None,
            },
            None => None,
        },
        None => None,
    };
    match text {
        Some(t) => match Json::parse(t) {
            Ok(v) => Ok(v),
            Err(_) => Ok(obj1("result", json_string(t))),
        },
        None => Ok(obj1("result", json_string("ok"))),
    }
}

} // verus!
