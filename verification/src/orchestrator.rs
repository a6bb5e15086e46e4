//! The agentic loop that answers one user message: the LLM is asked, the
//! tools it requests are run and their results shown to it, until it replies
//! in text or the number of tool rounds runs out.
//!
//! The loop's decisions are made here, one step at a time: each step takes
//! the outcome of the last action (the LLM's response, a tool's result, or a
//! completed save) and names the next action. Performing the actions (the
//! LLM and tool calls, the database writes) is left to the caller.
use vstd::prelude::*;

use crate::error::BotError;
use crate::json::{
    clone_items, items_view, json_string, lemma_items_view, lemma_items_view_push, obj2, obj3,
    jstr, parsed_json, json_text, Json, JsonValue,
};
use crate::plugins::{defs_view, openai_tool, FunctionDef, FunctionDefView, PluginRegistry, all_functions};
use crate::state::{
    context_window, messages_view, opt_str_view, ConversationState, Message, MessageView,
};

verus! {

/// Maximum number of tool-call rounds before a text reply is forced.
pub const MAX_TOOL_ITERATIONS: usize = 5;

/// Number of earlier messages shown to the LLM with each new message.
pub const CONTEXT_WINDOW: usize = 20;

/// A function call requested by the LLM, with the id that ties its result to it.
#[derive(Debug)]
pub struct FunctionCall {
    pub id: String,
    pub name: String,
    pub parameters: Json,
}

pub struct FunctionCallView {
    pub id: Seq<char>,
    pub name: Seq<char>,
    pub parameters: JsonValue,
}

impl View for FunctionCall {
    type V = FunctionCallView;

    open spec fn view(&self) -> FunctionCallView {
        FunctionCallView { id: self.id@, name: self.name@, parameters: self.parameters@ }
    }
}

pub open spec fn calls_view(calls: Seq<FunctionCall>) -> Seq<FunctionCallView> {
    calls.map_values(|c: FunctionCall| c@)
}

impl Clone for FunctionCall {
    fn clone(&self) -> (r: Self)
        ensures
            r@ == self@,
    {
        FunctionCall { id: self.id.clone(), name: self.name.clone(), parameters: self.parameters.clone() }
    }
}

// ---------------------------------------------------------------------------
// The system prompt
// ---------------------------------------------------------------------------

pub open spec fn base_system_prompt() -> Seq<char> {
    "You are a home automation assistant for a family. \
        You control devices via Home Assistant tools.\
        \n\nIMPORTANT RULES:\
        \n- Always respond in the same language the user is speaking (Portuguese, English, etc.).\
        \n- To turn on/off devices use HassTurnOn or HassTurnOff with the 'name' parameter \
        (the device's friendly name, e.g. 'Sala 1', 'Ar Alice') or the 'area' parameter \
        (room name, e.g. 'Cave', 'Quarto Alice', 'Sala'). HA will resolve the correct entities.\
        \n- Use GetLiveContext to check the current state of devices before acting when needed.\
        \n- Keep responses short and conversational."@
}

/// The system prompt: the fixed rules, then the home's entity hints, if any,
/// after a blank line.
pub open spec fn system_prompt(entity_hints: Option<Seq<char>>) -> Seq<char> {
    match entity_hints {
        Some(extra) => base_system_prompt() + "\n\n"@ + extra,
        None => base_system_prompt(),
    }
}

/// Builds the system prompt that guides the LLM on tool usage.
pub fn build_system_prompt(entity_hints: Option<&str>) -> (prompt: String)
    ensures
        prompt@ == system_prompt(opt_str_view(entity_hints)),
{
    let mut prompt = String::from_str(
        "You are a home automation assistant for a family. \
        You control devices via Home Assistant tools.\
        \n\nIMPORTANT RULES:\
        \n- Always respond in the same language the user is speaking (Portuguese, English, etc.).\
        \n- To turn on/off devices use HassTurnOn or HassTurnOff with the 'name' parameter \
        (the device's friendly name, e.g. 'Sala 1', 'Ar Alice') or the 'area' parameter \
        (room name, e.g. 'Cave', 'Quarto Alice', 'Sala'). HA will resolve the correct entities.\
        \n- Use GetLiveContext to check the current state of devices before acting when needed.\
        \n- Keep responses short and conversational.",
    );
    match entity_hints {
        Some(extra) => {
            prompt.append("\n\n");
            prompt.append(extra);
        },
        None => {},
    }
    prompt
}

// ---------------------------------------------------------------------------
// Reading the LLM's response
// ---------------------------------------------------------------------------

/// The message of the first choice of an OpenAI-format response.
pub open spec fn reply_message(response: JsonValue) -> JsonValue {
    response.field("choices"@).at(0).field("message"@)
}

/// The text of the reply: the message's `content` where it is a string, else empty.
pub open spec fn reply_text(response: JsonValue) -> Seq<char> {
    match reply_message(response).field("content"@).as_str() {
        Some(s) => s,
        None => Seq::empty(),
    }
}

/// The tool calls the reply requests: its `tool_calls` where that is an array.
pub open spec fn requested_calls(response: JsonValue) -> Seq<JsonValue> {
    match reply_message(response).field("tool_calls"@).as_array() {
        Some(calls) => calls,
        None => Seq::empty(),
    }
}

/// What reading one requested tool call gives.
pub enum CallReading {
    Read(FunctionCallView),
    /// `function.name` is no string.
    NoName,
    /// `function.arguments` is no string.
    NoArguments,
    /// `function.arguments` is no JSON text.
    BadArguments,
}

/// Reads one tool call: its `id` (`"unknown"` where it is no string), its
/// `function.name`, and its `function.arguments` read as JSON text.
pub open spec fn read_call(call: JsonValue) -> CallReading {
    let id = match call.field("id"@).as_str() {
        Some(s) => s,
        None => "unknown"@,
    };
    match call.field("function"@).field("name"@).as_str() {
        None => CallReading::NoName,
        Some(name) => match call.field("function"@).field("arguments"@).as_str() {
            None => CallReading::NoArguments,
            Some(args) => match parsed_json(args) {
                Some(parameters) => CallReading::Read(
                    FunctionCallView { id, name, parameters },
                ),
                None => CallReading::BadArguments,
            },
        },
    }
}

/// `e` is the error that a failed reading gives.
pub open spec fn reading_error(reading: CallReading, e: BotError) -> bool {
    match reading {
        CallReading::NoName => e matches BotError::LMStudio(m) && m@
            == "Missing function name in tool_call"@,
        CallReading::NoArguments => e matches BotError::LMStudio(m) && m@
            == "Missing function arguments"@,
        CallReading::BadArguments => e is Json,
        CallReading::Read(_) => false,
    }
}

/// Parses the tool calls of an OpenAI-format response. A response without
/// tool calls (or with an empty list) gives none; the first call that cannot
/// be read makes the whole response an error.
pub fn parse_function_calls(response: &Json) -> (r: Result<Vec<FunctionCall>, BotError>)
    ensures
        match r {
            Ok(calls) => {
                &&& forall|k: int|
                    0 <= k < requested_calls(response@).len() ==> #[trigger] read_call(
                        requested_calls(response@)[k],
                    ) is Read
                &&& calls_view(calls@) == requested_calls(response@).map_values(
                    |c: JsonValue| read_call(c)->Read_0,
                )
            },
            Err(e) => exists|k: int|
                0 <= k < requested_calls(response@).len() && !(#[trigger] read_call(
                    requested_calls(response@)[k],
                ) is Read) && reading_error(read_call(requested_calls(response@)[k]), e)
                    && forall|j: int|
                    0 <= j < k ==> #[trigger] read_call(requested_calls(response@)[j]) is Read,
        },
{
    let ghost requested = requested_calls(response@);
    let calls: &Vec<Json> = match field_of(response, "choices") {
        Some(choices) => match choices.at(0) {
            Some(first) => match field_of(first, "message") {
                Some(message) => match field_of(message, "tool_calls") {
                    Some(tool_calls) => match tool_calls.as_array() {
                        Some(calls) => calls,
                        None => {
                            return Ok(Vec::new());
                        },
                    },
                    None => {
                        return Ok(Vec::new());
                    },
                },
                None => {
                    return Ok(Vec::new());
                },
            },
            None => {
                return Ok(Vec::new());
            },
        },
        None => {
            return Ok(Vec::new());
        },
    };
    proof {
        lemma_items_view(calls@);
    }
    assert(requested == items_view(calls@));
    let mut out: Vec<FunctionCall> = Vec::new();
    let mut i: usize = 0;
    while i < calls.len()
        invariant
            i <= calls@.len(),
            requested == items_view(calls@),
            requested == requested_calls(response@),
            requested.len() == calls@.len(),
            forall|k: int| 0 <= k < calls@.len() ==> #[trigger] requested[k] == calls@[k]@,
            forall|k: int| 0 <= k < i ==> #[trigger] read_call(requested[k]) is Read,
            calls_view(out@) == requested.take(i as int).map_values(
                |c: JsonValue| read_call(c)->Read_0,
            ),
        decreases calls@.len() - i,
    {
        let tc = &calls[i];
        assert(requested[i as int] == tc@);
        match read_one_call(tc) {
            Ok(call) => {
                let ghost before = out@;
                out.push(call);
                proof {
                    assert(calls_view(out@) =~= calls_view(before).push(call@));
                    assert(requested.take(i + 1) =~= requested.take(i as int).push(requested[i as int]));
                    assert(requested.take(i + 1).map_values(|c: JsonValue| read_call(c)->Read_0)
                        =~= requested.take(i as int).map_values(
                        |c: JsonValue| read_call(c)->Read_0,
                    ).push(read_call(requested[i as int])->Read_0));
                }
            },
            Err(e) => {
                assert(!(read_call(requested[i as int]) is Read));
                assert(0 <= i < requested_calls(response@).len() && !(read_call(
                    requested_calls(response@)[i as int],
                ) is Read) && reading_error(read_call(requested_calls(response@)[i as int]), e)
                    && forall|j: int|
                    0 <= j < i ==> #[trigger] read_call(requested_calls(response@)[j]) is Read);
                return Err(e);
            },
        }
        i = i + 1;
    }
    proof {
        assert(requested.take(i as int) =~= requested);
    }
    Ok(out)
}

/// Reads one requested tool call.
fn read_one_call(tc: &Json) -> (r: Result<FunctionCall, BotError>)
    ensures
        match r {
            Ok(call) => read_call(tc@) == CallReading::Read(call@),
            Err(e) => !(read_call(tc@) is Read) && reading_error(read_call(tc@), e),
        },
{
    let id = match field_of(tc, "id") {
        Some(v) => match v.as_str() {
            Some(s) => String::from_str(s),
            None => String::from_str("unknown"),
        },
        None => String::from_str("unknown"),
    };
    let function = field_of(tc, "function");
    let name = match function {
        Some(f) => match field_of(f, "name") {
            Some(v) => v.as_str(),
            None => None,
        },
        None => None,
    };
    let name = match name {
        Some(n) => String::from_str(n),
        None => {
            return Err(BotError::LMStudio(String::from_str("Missing function name in tool_call")));
        },
    };
    let args = match function {
        Some(f) => match field_of(f, "arguments") {
            Some(v) => v.as_str(),
            None => None,
        },
        None => None,
    };
    let args = match args {
        Some(a) => a,
        None => {
            return Err(BotError::LMStudio(String::from_str("Missing function arguments")));
        },
    };
    let parameters = Json::parse(args)?;
    Ok(FunctionCall { id, name, parameters })
}

/// The member `key` of an object, as serde_json's indexing reads it.
fn field_of<'a>(v: &'a Json, key: &str) -> (r: Option<&'a Json>)
    ensures
        match r {
            Some(f) => v@.field(key@) == f@ && v@.get(key@) == Some(f@),
            None => v@.field(key@) == JsonValue::Null && v@.get(key@) is None,
        },
{
    v.get(key)
}

/// The text of an OpenAI-format response; empty where there is no string content.
pub fn extract_text_response(response: &Json) -> (text: String)
    ensures
        text@ == reply_text(response@),
{
    let content = match field_of(response, "choices") {
        Some(choices) => match choices.at(0) {
            Some(first) => match field_of(first, "message") {
                Some(message) => match field_of(message, "content") {
                    Some(c) => c.as_str(),
                    None => None,
                },
                None => None,
            },
            None => None,
        },
        None => None,
    };
    match content {
        Some(s) => String::from_str(s),
        None => String::new(),
    }
}

/// The message of the first choice, copied; `Null` where there is none.
fn copy_reply_message(response: &Json) -> (m: Json)
    ensures
        m@ == reply_message(response@),
{
    match field_of(response, "choices") {
        Some(choices) => match choices.at(0) {
            Some(first) => match field_of(first, "message") {
                Some(message) => message.clone(),
                None => Json::Null,
            },
            None => Json::Null,
        },
        None => Json::Null,
    }
}

// ---------------------------------------------------------------------------
// The messages shown to the LLM
// ---------------------------------------------------------------------------

/// A user's words as the LLM sees them: prefixed by the sender's name, if known.
pub open spec fn signed(content: Seq<char>, sender_name: Option<Seq<char>>) -> Seq<char> {
    match sender_name {
        Some(name) => "["@ + name + "] "@ + content,
        None => content,
    }
}

/// An earlier message as the LLM sees it; only user messages are signed.
pub open spec fn context_entry(m: MessageView) -> JsonValue {
    let content = if m.role == "user"@ {
        signed(m.content, m.sender_name)
    } else {
        m.content
    };
    JsonValue::Object(seq![("role"@, jstr(m.role)), ("content"@, jstr(content))])
}

/// A message `{"role": role, "content": content}`.
pub open spec fn chat_entry(role: Seq<char>, content: Seq<char>) -> JsonValue {
    JsonValue::Object(seq![("role"@, jstr(role)), ("content"@, jstr(content))])
}

/// The result of a tool call, as shown to the LLM.
pub open spec fn tool_entry(call_id: Seq<char>, content: Seq<char>) -> JsonValue {
    JsonValue::Object(
        seq![
            ("role"@, jstr("tool"@)),
            ("tool_call_id"@, jstr(call_id)),
            ("content"@, jstr(content)),
        ],
    )
}

/// The messages the LLM first sees for a new user message: the system
/// prompt, the conversation's last messages (before the new one), and the
/// new message.
pub open spec fn opening_messages(
    entity_hints: Option<Seq<char>>,
    history: Seq<MessageView>,
    user_message: Seq<char>,
    sender_name: Option<Seq<char>>,
) -> Seq<JsonValue> {
    seq![chat_entry("system"@, system_prompt(entity_hints))] + context_window(
        history,
        CONTEXT_WINDOW as nat,
    ).map_values(|m: MessageView| context_entry(m)) + seq![
        chat_entry("user"@, signed(user_message, sender_name)),
    ]
}

/// The tools announced to the LLM for `functions`.
pub open spec fn announced_tools(functions: Seq<FunctionDefView>) -> Seq<JsonValue> {
    functions.map_values(|f: FunctionDefView| openai_tool(f))
}

/// The reply's text is the `content` of the `message` of the first of the
/// response's `choices`, where that is a string, and the tool calls it
/// requests are that message's `tool_calls`, where that is an array.
pub proof fn lemma_reply_parts(response: JsonValue, choices: Seq<JsonValue>, message: JsonValue)
    requires
        response.get("choices"@) == Some(JsonValue::Array(choices)),
        choices.len() > 0,
        choices[0].get("message"@) == Some(message),
    ensures
        reply_text(response) == match message.get("content"@) {
            Some(JsonValue::Str(t)) => t,
            _ => Seq::empty(),
        },
        requested_calls(response) == match message.get("tool_calls"@) {
            Some(JsonValue::Array(calls)) => calls,
            _ => Seq::empty(),
        },
{
}

/// A requested tool call is read as its function's `name`, with its
/// function's `arguments` read as JSON text as the parameters, under the
/// call's `id` (`unknown` where that is no string).
pub proof fn lemma_read_call_parts(
    call: JsonValue,
    function: JsonValue,
    name: Seq<char>,
    arguments: Seq<char>,
)
    requires
        call.get("function"@) == Some(function),
        function.get("name"@) == Some(JsonValue::Str(name)),
        function.get("arguments"@) == Some(JsonValue::Str(arguments)),
    ensures
        read_call(call) == match parsed_json(arguments) {
            Some(parameters) => CallReading::Read(
                FunctionCallView {
                    id: match call.get("id"@) {
                        Some(JsonValue::Str(id)) => id,
                        _ => "unknown"@,
                    },
                    name,
                    parameters,
                },
            ),
            None => CallReading::BadArguments,
        },
{
}

/// The result of a tool call is shown to the LLM as a `tool` message that
/// names the call's id and holds the result.
pub proof fn lemma_tool_entry_fields(call_id: Seq<char>, content: Seq<char>)
    ensures
        tool_entry(call_id, content).field("role"@) == jstr("tool"@),
        tool_entry(call_id, content).field("tool_call_id"@) == jstr(call_id),
        tool_entry(call_id, content).field("content"@) == jstr(content),
{
    reveal_strlit("role");
    reveal_strlit("tool_call_id");
    reveal_strlit("content");
    let members = tool_entry(call_id, content)->Object_0;
    assert(members[0].0.len() != "tool_call_id"@.len() && members[0].0.len() != "content"@.len()
        && members[1].0.len() != "content"@.len());
    crate::json::lemma_lookup_at(members, "role"@, 0);
    crate::json::lemma_lookup_at(members, "tool_call_id"@, 1);
    crate::json::lemma_lookup_at(members, "content"@, 2);
}

/// An earlier message is shown with its role, and with its text prefixed by
/// `[name] ` where it is a user's whose name is known, verbatim otherwise.
pub proof fn lemma_context_entry_fields(m: MessageView)
    ensures
        context_entry(m).field("role"@) == jstr(m.role),
        context_entry(m).field("content"@) == jstr(
            match m.sender_name {
                Some(name) => if m.role == "user"@ {
                    "["@ + name + "] "@ + m.content
                } else {
                    m.content
                },
                None => m.content,
            },
        ),
{
    reveal_strlit("role");
    reveal_strlit("content");
    let members = context_entry(m)->Object_0;
    assert(members[0].0.len() != "content"@.len());
    crate::json::lemma_lookup_at(members, "role"@, 0);
    crate::json::lemma_lookup_at(members, "content"@, 1);
}

/// The LLM first sees the system prompt, then the last `CONTEXT_WINDOW`
/// messages of the conversation (all of them where there are fewer), in
/// order, then the new message, signed with the sender's name where known.
pub proof fn lemma_opening_messages_order(
    entity_hints: Option<Seq<char>>,
    history: Seq<MessageView>,
    user_message: Seq<char>,
    sender_name: Option<Seq<char>>,
)
    ensures
        ({
            let shown = opening_messages(entity_hints, history, user_message, sender_name);
            let w = if history.len() < CONTEXT_WINDOW {
                history.len() as int
            } else {
                CONTEXT_WINDOW as int
            };
            &&& shown.len() == w + 2
            &&& shown[0] == chat_entry("system"@, system_prompt(entity_hints))
            &&& forall|i: int|
                0 <= i < w ==> #[trigger] shown[i + 1] == context_entry(history[history.len() - w + i])
            &&& shown[w + 1] == chat_entry(
                "user"@,
                match sender_name {
                    Some(name) => "["@ + name + "] "@ + user_message,
                    None => user_message,
                },
            )
        }),
{
    let window = context_window(history, CONTEXT_WINDOW as nat);
    let w = window.len() as int;
    let shown = opening_messages(entity_hints, history, user_message, sender_name);
    assert forall|i: int| 0 <= i < w implies #[trigger] shown[i + 1] == context_entry(
        history[history.len() - w + i],
    ) by {
        assert(window[i] == history[history.len() - w + i]);
    }
}

fn signed_text(content: &str, sender_name: Option<&str>) -> (r: String)
    ensures
        r@ == signed(content@, opt_str_view(sender_name)),
{
    match sender_name {
        Some(name) => {
            let mut s = String::from_str("[");
            s.append(name);
            s.append("] ");
            s.append(content);
            s
        },
        None => String::from_str(content),
    }
}

fn chat_message(role: &str, content: &str) -> (m: Json)
    ensures
        m@ == chat_entry(role@, content@),
{
    obj2("role", json_string(role), "content", json_string(content))
}

fn context_message(m: &Message) -> (j: Json)
    ensures
        j@ == context_entry(m@),
{
    let is_user = m.role == String::from_str("user");
    let sender = match &m.sender_name {
        Some(s) => Some(s.as_str()),
        None => None,
    };
    let content = if is_user {
        signed_text(m.content.as_str(), sender)
    } else {
        m.content.clone()
    };
    chat_message(m.role.as_str(), content.as_str())
}

fn tool_message(call_id: &str, content: &str) -> (m: Json)
    ensures
        m@ == tool_entry(call_id@, content@),
{
    obj3(
        "role",
        json_string("tool"),
        "tool_call_id",
        json_string(call_id),
        "content",
        json_string(content),
    )
}

/// The tool objects for `functions`, in order.
pub fn openai_tools(functions: &Vec<FunctionDef>) -> (tools: Vec<Json>)
    ensures
        items_view(tools@) == announced_tools(defs_view(functions@)),
{
    let mut tools: Vec<Json> = Vec::new();
    let mut i: usize = 0;
    while i < functions.len()
        invariant
            i <= functions@.len(),
            items_view(tools@) == announced_tools(defs_view(functions@.take(i as int))),
        decreases functions@.len() - i,
    {
        let t = functions[i].to_openai_tool();
        let ghost before = tools@;
        tools.push(t);
        proof {
            lemma_items_view_push(before, t);
            assert(announced_tools(defs_view(functions@.take(i + 1))) =~= announced_tools(
                defs_view(functions@.take(i as int)),
            ).push(openai_tool(functions@[i as int]@)));
        }
        i = i + 1;
    }
    assert(functions@.take(i as int) =~= functions@);
    tools
}

fn opening(
    entity_hints: Option<&str>,
    window: &Vec<Message>,
    user_message: &str,
    sender_name: Option<&str>,
) -> (messages: Vec<Json>)
    ensures
        items_view(messages@) == seq![
            chat_entry("system"@, system_prompt(opt_str_view(entity_hints))),
        ] + messages_view(window@).map_values(|m: MessageView| context_entry(m)) + seq![
            chat_entry("user"@, signed(user_message@, opt_str_view(sender_name))),
        ],
{
    let prompt = build_system_prompt(entity_hints);
    let mut messages: Vec<Json> = Vec::new();
    let system = chat_message("system", prompt.as_str());
    messages.push(system);
    proof {
        lemma_items_view_push(Seq::empty(), system);
        assert(Seq::<Json>::empty().push(system) =~= messages@);
        assert(items_view(Seq::<Json>::empty()) =~= Seq::<JsonValue>::empty());
    }
    let ghost head = seq![chat_entry("system"@, system_prompt(opt_str_view(entity_hints)))];
    let mut i: usize = 0;
    while i < window.len()
        invariant
            i <= window@.len(),
            items_view(messages@) == head + messages_view(window@.take(i as int)).map_values(
                |m: MessageView| context_entry(m),
            ),
        decreases window@.len() - i,
    {
        let entry = context_message(&window[i]);
        let ghost before = messages@;
        messages.push(entry);
        proof {
            lemma_items_view_push(before, entry);
            assert(messages_view(window@.take(i + 1)).map_values(|m: MessageView| context_entry(m))
                =~= messages_view(window@.take(i as int)).map_values(
                |m: MessageView| context_entry(m),
            ).push(context_entry(window@[i as int]@)));
        }
        i = i + 1;
    }
    assert(window@.take(i as int) =~= window@);
    let content = signed_text(user_message, sender_name);
    let user = chat_message("user", content.as_str());
    let ghost before = messages@;
    messages.push(user);
    proof {
        lemma_items_view_push(before, user);
    }
    messages
}

// ---------------------------------------------------------------------------
// The turn
// ---------------------------------------------------------------------------

/// Where a turn stands: what the outcome of its last action was for.
pub enum Phase {
    /// The user's message is being saved.
    SavingUser,
    /// The LLM is asked, with the tools.
    AwaitingReply,
    /// The LLM's requested calls run one after the other; `next` is running.
    RunningTools { calls: Vec<FunctionCall>, next: usize },
    /// The LLM is asked one last time, without tools.
    AwaitingFinalReply,
    /// The reply is being saved.
    SavingReply { reply: String },
    /// The turn is over.
    Done,
}

pub enum PhaseView {
    SavingUser,
    AwaitingReply,
    RunningTools { calls: Seq<FunctionCallView>, next: nat },
    AwaitingFinalReply,
    SavingReply { reply: Seq<char> },
    Done,
}

impl View for Phase {
    type V = PhaseView;

    open spec fn view(&self) -> PhaseView {
        match self {
            Phase::SavingUser => PhaseView::SavingUser,
            Phase::AwaitingReply => PhaseView::AwaitingReply,
            Phase::RunningTools { calls, next } => PhaseView::RunningTools {
                calls: calls_view(calls@),
                next: *next as nat,
            },
            Phase::AwaitingFinalReply => PhaseView::AwaitingFinalReply,
            Phase::SavingReply { reply } => PhaseView::SavingReply { reply: reply@ },
            Phase::Done => PhaseView::Done,
        }
    }
}

/// What the caller is to do next.
#[derive(Debug)]
pub enum TurnAction {
    /// Call the LLM `model` with these messages and tools; the outcome is its response.
    CallLlm { messages: Vec<Json>, tools: Vec<Json>, model: String },
    /// Run this tool through the plugins; the outcome is its result.
    RunTool { name: String, parameters: Json },
    /// Save this message, just added to the conversation, in the
    /// conversation's database; the outcome of a completed save is `Null`.
    Persist { role: String, content: String, sender_name: Option<String> },
    /// The turn is over: the reply, or why there is none.
    Finish(Result<String, BotError>),
}

pub enum ActionView {
    CallLlm { messages: Seq<JsonValue>, tools: Seq<JsonValue>, model: Seq<char> },
    RunTool { name: Seq<char>, parameters: JsonValue },
    Persist { role: Seq<char>, content: Seq<char>, sender_name: Option<Seq<char>> },
    Finish(Result<Seq<char>, BotError>),
}

impl View for TurnAction {
    type V = ActionView;

    open spec fn view(&self) -> ActionView {
        match self {
            TurnAction::CallLlm { messages, tools, model } => ActionView::CallLlm {
                messages: items_view(messages@),
                tools: items_view(tools@),
                model: model@,
            },
            TurnAction::RunTool { name, parameters } => ActionView::RunTool {
                name: name@,
                parameters: parameters@,
            },
            TurnAction::Persist { role, content, sender_name } => ActionView::Persist {
                role: role@,
                content: content@,
                sender_name: crate::state::opt_string_view(*sender_name),
            },
            TurnAction::Finish(r) => ActionView::Finish(
                match r {
                    Ok(s) => Ok(s@),
                    Err(e) => Err(*e),
                },
            ),
        }
    }
}

/// One turn of the conversation: the answering of one user message.
pub struct AgentTurn {
    /// The messages the LLM has been shown so far.
    messages: Vec<Json>,
    /// The tools announced to it.
    tools: Vec<Json>,
    /// The LLM model asked.
    model: String,
    phase: Phase,
    /// How many times the LLM has been called.
    llm_calls: usize,
}

pub struct TurnView {
    pub messages: Seq<JsonValue>,
    pub tools: Seq<JsonValue>,
    pub model: Seq<char>,
    pub phase: PhaseView,
    pub llm_calls: nat,
}

impl View for AgentTurn {
    type V = TurnView;

    closed spec fn view(&self) -> TurnView {
        TurnView {
            messages: items_view(self.messages@),
            tools: items_view(self.tools@),
            model: self.model@,
            phase: self.phase@,
            llm_calls: self.llm_calls as nat,
        }
    }
}

impl TurnView {
    /// The turn keeps its bounds: the LLM is called at most
    /// `MAX_TOOL_ITERATIONS + 1` times, and the phase agrees with the count.
    pub open spec fn wf(self) -> bool {
        &&& self.llm_calls <= MAX_TOOL_ITERATIONS + 1
        &&& match self.phase {
            PhaseView::SavingUser => self.llm_calls == 0,
            PhaseView::AwaitingReply => 1 <= self.llm_calls <= MAX_TOOL_ITERATIONS,
            PhaseView::RunningTools { calls, next } => 1 <= self.llm_calls
                <= MAX_TOOL_ITERATIONS && next < calls.len(),
            PhaseView::AwaitingFinalReply => self.llm_calls == MAX_TOOL_ITERATIONS + 1,
            _ => true,
        }
    }

    pub open spec fn is_done(self) -> bool {
        self.phase is Done
    }
}

/// The text of a tool's outcome as shown to the LLM: the result's JSON text,
/// or `Error: ` and the error's text.
pub open spec fn tool_outcome_text(outcome: Result<JsonValue, BotError>, text: Seq<char>) -> bool {
    match outcome {
        Ok(v) => json_text(v) == Some(text),
        Err(e) => exists|t: Seq<char>| e.is_text(t) && text == "Error: "@ + t,
    }
}

pub open spec fn outcome_view(outcome: Result<Json, BotError>) -> Result<JsonValue, BotError> {
    match outcome {
        Ok(v) => Ok(v@),
        Err(e) => Err(e),
    }
}

pub open spec fn assistant_entry(text: Seq<char>) -> MessageView {
    MessageView { role: "assistant"@, content: text, sender_name: None }
}

pub open spec fn tool_history_entry(text: Seq<char>) -> MessageView {
    MessageView { role: "tool"@, content: text, sender_name: None }
}

/// After the reply `text` is added to the conversation: it is saved where the
/// conversation is kept in a database, else the turn is over.
pub open spec fn after_reply(
    old_turn: TurnView,
    new_turn: TurnView,
    old_history: Seq<MessageView>,
    new_history: Seq<MessageView>,
    persisted: bool,
    text: Seq<char>,
    action: ActionView,
) -> bool {
    &&& new_history == old_history.push(assistant_entry(text))
    &&& new_turn.messages == old_turn.messages
    &&& new_turn.llm_calls == old_turn.llm_calls
    &&& if persisted {
        &&& new_turn.phase == PhaseView::SavingReply { reply: text }
        &&& action == ActionView::Persist { role: "assistant"@, content: text, sender_name: None }
    } else {
        &&& new_turn.phase == PhaseView::Done
        &&& action == ActionView::Finish(Ok(text))
    }
}

/// After a failure: the turn is over with `e`.
pub open spec fn fails_with(
    old_turn: TurnView,
    new_turn: TurnView,
    old_history: Seq<MessageView>,
    new_history: Seq<MessageView>,
    action: ActionView,
) -> bool {
    &&& new_turn.phase == PhaseView::Done
    &&& new_history == old_history
    &&& new_turn.llm_calls == old_turn.llm_calls
    &&& action is Finish
    &&& action->Finish_0 is Err
}

/// The LLM is called (again) with all messages shown so far; the last call
/// of a turn goes without tools.
pub open spec fn calls_llm(old_turn: TurnView, new_turn: TurnView, action: ActionView) -> bool {
    &&& new_turn.llm_calls == old_turn.llm_calls + 1
    &&& new_turn.messages == old_turn.messages
    &&& new_turn.tools == old_turn.tools
    &&& new_turn.model == old_turn.model
    &&& if old_turn.llm_calls < MAX_TOOL_ITERATIONS {
        &&& new_turn.phase == PhaseView::AwaitingReply
        &&& action == ActionView::CallLlm {
            messages: new_turn.messages,
            tools: new_turn.tools,
            model: new_turn.model,
        }
    } else {
        &&& new_turn.phase == PhaseView::AwaitingFinalReply
        &&& action == ActionView::CallLlm {
            messages: new_turn.messages,
            tools: Seq::empty(),
            model: new_turn.model,
        }
    }
}

/// One step of a turn: from the turn `old_turn` and the conversation's
/// history `old_history`, the outcome `outcome` of the last action leads to
/// `new_turn`, `new_history` and the next action `action`.
pub open spec fn step_spec(
    old_turn: TurnView,
    old_history: Seq<MessageView>,
    persisted: bool,
    outcome: Result<JsonValue, BotError>,
    new_turn: TurnView,
    new_history: Seq<MessageView>,
    action: ActionView,
) -> bool {
    &&& new_turn.tools == old_turn.tools
    &&& new_turn.model == old_turn.model
    &&& match old_turn.phase {
        PhaseView::SavingUser => match outcome {
            Err(e) => fails_with(old_turn, new_turn, old_history, new_history, action) && action
                == ActionView::Finish(Err(e)),
            Ok(_) => new_history == old_history && calls_llm(old_turn, new_turn, action),
        },
        PhaseView::AwaitingReply => match outcome {
            Err(e) => fails_with(old_turn, new_turn, old_history, new_history, action) && action
                == ActionView::Finish(Err(e)),
            Ok(response) => {
                let requested = requested_calls(response);
                if exists|k: int|
                    0 <= k < requested.len() && !(#[trigger] read_call(requested[k]) is Read) {
                    &&& fails_with(old_turn, new_turn, old_history, new_history, action)
                    &&& exists|k: int|
                        0 <= k < requested.len() && !(#[trigger] read_call(requested[k]) is Read)
                            && reading_error(read_call(requested[k]), action->Finish_0->Err_0)
                            && forall|j: int|
                            0 <= j < k ==> #[trigger] read_call(requested[j]) is Read
                } else if requested.len() == 0 {
                    after_reply(
                        old_turn,
                        new_turn,
                        old_history,
                        new_history,
                        persisted,
                        reply_text(response),
                        action,
                    )
                } else {
                    let calls = requested.map_values(|c: JsonValue| read_call(c)->Read_0);
                    &&& new_history == old_history
                    &&& new_turn.llm_calls == old_turn.llm_calls
                    &&& new_turn.messages == old_turn.messages.push(reply_message(response))
                    &&& new_turn.phase == PhaseView::RunningTools { calls, next: 0 }
                    &&& action == ActionView::RunTool {
                        name: calls[0].name,
                        parameters: calls[0].parameters,
                    }
                }
            },
        },
        PhaseView::RunningTools { calls, next } => if (outcome matches Ok(v) && json_text(v) is None) {
            fails_with(old_turn, new_turn, old_history, new_history, action)
                && action->Finish_0->Err_0 is Json
        } else {
            exists|text: Seq<char>|
                {
                    &&& #[trigger] tool_outcome_text(outcome, text)
                    &&& new_history == old_history.push(tool_history_entry(text))
                    &&& new_turn.messages == old_turn.messages.push(
                        tool_entry(calls[next as int].id, text),
                    )
                    &&& if next + 1 < calls.len() {
                        &&& new_turn.llm_calls == old_turn.llm_calls
                        &&& new_turn.phase == PhaseView::RunningTools { calls, next: next + 1 }
                        &&& action == ActionView::RunTool {
                            name: calls[next + 1 as int].name,
                            parameters: calls[next + 1 as int].parameters,
                        }
                    } else {
                        calls_llm(
                            TurnView { messages: new_turn.messages, ..old_turn },
                            new_turn,
                            action,
                        )
                    }
                }
        },
        PhaseView::AwaitingFinalReply => match outcome {
            Err(e) => fails_with(old_turn, new_turn, old_history, new_history, action) && action
                == ActionView::Finish(Err(e)),
            Ok(response) => after_reply(
                old_turn,
                new_turn,
                old_history,
                new_history,
                persisted,
                reply_text(response),
                action,
            ),
        },
        PhaseView::SavingReply { reply } => {
            &&& new_turn.phase == PhaseView::Done
            &&& new_history == old_history
            &&& new_turn.llm_calls == old_turn.llm_calls
            &&& new_turn.messages == old_turn.messages
            &&& match outcome {
                Err(e) => action == ActionView::Finish(Err(e)),
                Ok(_) => action == ActionView::Finish(Ok(reply)),
            }
        },
        PhaseView::Done => false,
    }
}

/// The number of LLM calls among `actions`.
pub open spec fn llm_call_count(actions: Seq<ActionView>) -> nat
    decreases actions.len(),
{
    if actions.len() == 0 {
        0
    } else {
        llm_call_count(actions.drop_last()) + if actions.last() is CallLlm {
            1nat
        } else {
            0nat
        }
    }
}

/// A step keeps a turn's bounds, and counts the LLM call it asks for.
pub proof fn lemma_step_keeps_bounds(
    old_turn: TurnView,
    old_history: Seq<MessageView>,
    persisted: bool,
    outcome: Result<JsonValue, BotError>,
    new_turn: TurnView,
    new_history: Seq<MessageView>,
    action: ActionView,
)
    requires
        old_turn.wf(),
        step_spec(old_turn, old_history, persisted, outcome, new_turn, new_history, action),
    ensures
        new_turn.wf(),
        new_turn.llm_calls == old_turn.llm_calls + if action is CallLlm {
            1nat
        } else {
            0nat
        },
{
    match old_turn.phase {
        PhaseView::AwaitingReply => {
            if let Ok(response) = outcome {
                let requested = requested_calls(response);
                assert(requested.map_values(|c: JsonValue| read_call(c)->Read_0).len()
                    == requested.len());
            }
        },
        _ => {},
    }
}

/// However the LLM and the tools answer, a turn calls the LLM at most
/// `MAX_TOOL_ITERATIONS + 1` times: along any run of steps from a turn that
/// keeps its bounds, the calls asked for by the steps, added to those made
/// before, are the turn's count at the end, which stays within the bound.
pub proof fn lemma_llm_calls_bounded(
    turns: Seq<TurnView>,
    histories: Seq<Seq<MessageView>>,
    persisted: bool,
    outcomes: Seq<Result<JsonValue, BotError>>,
    actions: Seq<ActionView>,
)
    requires
        turns.len() == outcomes.len() + 1,
        histories.len() == turns.len(),
        actions.len() == outcomes.len(),
        turns[0].wf(),
        forall|i: int|
            0 <= i < outcomes.len() ==> step_spec(
                #[trigger] turns[i],
                histories[i],
                persisted,
                outcomes[i],
                turns[i + 1],
                histories[i + 1],
                actions[i],
            ),
    ensures
        turns[0].llm_calls + llm_call_count(actions) == turns.last().llm_calls,
        turns.last().wf(),
        turns.last().llm_calls <= MAX_TOOL_ITERATIONS + 1,
    decreases outcomes.len(),
{
    if outcomes.len() > 0 {
        let n = outcomes.len() - 1;
        lemma_llm_calls_bounded(
            turns.drop_last(),
            histories.drop_last(),
            persisted,
            outcomes.drop_last(),
            actions.drop_last(),
        );
        assert(turns.drop_last().last() == turns[n]);
        assert(step_spec(
            turns[n],
            histories[n],
            persisted,
            outcomes[n],
            turns[n + 1],
            histories[n + 1],
            actions[n],
        ));
        lemma_step_keeps_bounds(
            turns[n],
            histories[n],
            persisted,
            outcomes[n],
            turns[n + 1],
            histories[n + 1],
            actions[n],
        );
    }
}

impl AgentTurn {
    /// Begins the answering of `user_message`: shows the LLM the system
    /// prompt, the last `CONTEXT_WINDOW` messages of the conversation and the
    /// new message, with the tools for `functions`, asking `model`; adds the
    /// user's message to the conversation (to be saved first where the
    /// conversation is kept in a database).
    pub fn start(
        model: &str,
        entity_hints: Option<&str>,
        state: &mut ConversationState,
        user_message: &str,
        sender_name: Option<&str>,
        functions: &Vec<FunctionDef>,
    ) -> (r: (AgentTurn, TurnAction))
        ensures
            r.0@.wf(),
            r.0@.messages == opening_messages(
                opt_str_view(entity_hints),
                old(state).history(),
                user_message@,
                opt_str_view(sender_name),
            ),
            r.0@.tools == announced_tools(defs_view(functions@)),
            r.0@.model == model@,
            final(state).history() == old(state).history().push(
                MessageView {
                    role: "user"@,
                    content: user_message@,
                    sender_name: opt_str_view(sender_name),
                },
            ),
            final(state).family_id == old(state).family_id,
            final(state).mode == old(state).mode,
            final(state).is_persisted() == old(state).is_persisted(),
            if old(state).is_persisted() {
                &&& r.0@.phase == PhaseView::SavingUser
                &&& r.0@.llm_calls == 0
                &&& r.1@ == ActionView::Persist {
                    role: "user"@,
                    content: user_message@,
                    sender_name: opt_str_view(sender_name),
                }
            } else {
                &&& r.0@.phase == PhaseView::AwaitingReply
                &&& r.0@.llm_calls == 1
                &&& r.1@ == ActionView::CallLlm {
                    messages: r.0@.messages,
                    tools: r.0@.tools,
                    model: r.0@.model,
                }
            },
    {
        let window = state.get_context_window(CONTEXT_WINDOW);
        let messages = opening(entity_hints, &window, user_message, sender_name);
        proof {
            assert(messages_view(window@).map_values(|m: MessageView| context_entry(m))
                == context_window(old(state).history(), CONTEXT_WINDOW as nat).map_values(
                |m: MessageView| context_entry(m),
            ));
        }
        let sender = match sender_name {
            Some(s) => Some(String::from_str(s)),
            None => None,
        };
        state.add_message("user", user_message, sender);
        let tools = openai_tools(functions);
        if state.pool.is_some() {
            let sender = match sender_name {
                Some(s) => Some(String::from_str(s)),
                None => None,
            };
            let turn = AgentTurn {
                messages,
                tools,
                model: String::from_str(model),
                phase: Phase::SavingUser,
                llm_calls: 0,
            };
            let action = TurnAction::Persist {
                role: String::from_str("user"),
                content: String::from_str(user_message),
                sender_name: sender,
            };
            (turn, action)
        } else {
            let action = TurnAction::CallLlm {
                messages: clone_items(&messages),
                tools: clone_items(&tools),
                model: String::from_str(model),
            };
            let turn = AgentTurn {
                messages,
                tools,
                model: String::from_str(model),
                phase: Phase::AwaitingReply,
                llm_calls: 1,
            };
            (turn, action)
        }
    }

    /// Whether the turn is over.
    pub fn is_done(&self) -> (r: bool)
        ensures
            r == self@.is_done(),
    {
        match self.phase {
            Phase::Done => true,
            _ => false,
        }
    }

    /// How many times the LLM has been called in this turn.
    pub fn llm_calls(&self) -> (n: usize)
        ensures
            n == self@.llm_calls,
    {
        self.llm_calls
    }

    /// Takes the outcome of the last action and names the next one.
    pub fn step(&mut self, state: &mut ConversationState, outcome: Result<Json, BotError>) -> (action:
        TurnAction)
        requires
            old(self)@.wf(),
            !old(self)@.is_done(),
        ensures
            final(self)@.wf(),
            step_spec(
                old(self)@,
                old(state).history(),
                old(state).is_persisted(),
                outcome_view(outcome),
                final(self)@,
                final(state).history(),
                action@,
            ),
            final(state).family_id == old(state).family_id,
            final(state).mode == old(state).mode,
            final(state).is_persisted() == old(state).is_persisted(),
    {
        let mut phase = Phase::Done;
        std::mem::swap(&mut phase, &mut self.phase);
        match phase {
            Phase::SavingUser => match outcome {
                Err(e) => TurnAction::Finish(Err(e)),
                Ok(_) => self.call_llm(),
            },
            Phase::AwaitingReply => match outcome {
                Err(e) => TurnAction::Finish(Err(e)),
                Ok(response) => self.on_reply(state, &response),
            },
            Phase::RunningTools { calls, next } => self.on_tool_outcome(state, calls, next, outcome),
            Phase::AwaitingFinalReply => match outcome {
                Err(e) => TurnAction::Finish(Err(e)),
                Ok(response) => {
                    let text = extract_text_response(&response);
                    self.finish_with(state, text)
                },
            },
            Phase::SavingReply { reply } => match outcome {
                Err(e) => TurnAction::Finish(Err(e)),
                Ok(_) => TurnAction::Finish(Ok(reply)),
            },
            // A finished turn takes no further steps (see `requires`).
            Phase::Done => TurnAction::Finish(Ok(String::new())),
        }
    }

    /// Calls the LLM with everything shown so far; the last call goes
    /// without tools.
    fn call_llm(&mut self) -> (action: TurnAction)
        requires
            old(self).llm_calls <= MAX_TOOL_ITERATIONS,
        ensures
            calls_llm(old(self)@, final(self)@, action@),
    {
        if self.llm_calls < MAX_TOOL_ITERATIONS {
            self.llm_calls = self.llm_calls + 1;
            self.phase = Phase::AwaitingReply;
            TurnAction::CallLlm {
                messages: clone_items(&self.messages),
                tools: clone_items(&self.tools),
                model: self.model.clone(),
            }
        } else {
            self.llm_calls = self.llm_calls + 1;
            self.phase = Phase::AwaitingFinalReply;
            let action = TurnAction::CallLlm {
                messages: clone_items(&self.messages),
                tools: Vec::new(),
                model: self.model.clone(),
            };
            assert(items_view(Seq::<Json>::empty()) =~= Seq::<JsonValue>::empty());
            action
        }
    }

    /// Adds the reply `text` to the conversation, then saves it or ends the turn.
    fn finish_with(&mut self, state: &mut ConversationState, text: String) -> (action: TurnAction)
        ensures
            after_reply(
                old(self)@,
                final(self)@,
                old(state).history(),
                final(state).history(),
                old(state).is_persisted(),
                text@,
                action@,
            ),
            final(self).tools == old(self).tools,
            final(self).model == old(self).model,
            final(state).family_id == old(state).family_id,
            final(state).mode == old(state).mode,
            final(state).is_persisted() == old(state).is_persisted(),
    {
        state.add_message("assistant", text.as_str(), None);
        if state.pool.is_some() {
            let content = text.clone();
            self.phase = Phase::SavingReply { reply: text };
            TurnAction::Persist {
                role: String::from_str("assistant"),
                content,
                sender_name: None,
            }
        } else {
            self.phase = Phase::Done;
            TurnAction::Finish(Ok(text))
        }
    }

    fn on_reply(&mut self, state: &mut ConversationState, response: &Json) -> (action: TurnAction)
        requires
            1 <= old(self).llm_calls <= MAX_TOOL_ITERATIONS,
            old(self).phase is Done,
        ensures
            final(self)@.wf(),
            step_spec(
                TurnView { phase: PhaseView::AwaitingReply, ..old(self)@ },
                old(state).history(),
                old(state).is_persisted(),
                Ok(response@),
                final(self)@,
                final(state).history(),
                action@,
            ),
            final(state).family_id == old(state).family_id,
            final(state).mode == old(state).mode,
            final(state).is_persisted() == old(state).is_persisted(),
    {
        let ghost requested = requested_calls(response@);
        match parse_function_calls(response) {
            Err(e) => {
                proof {
                    let k = choose|k: int|
                        0 <= k < requested.len() && !(#[trigger] read_call(requested[k]) is Read)
                            && reading_error(read_call(requested[k]), e) && forall|j: int|
                            0 <= j < k ==> #[trigger] read_call(requested[j]) is Read;
                    assert(0 <= k < requested.len() && !(read_call(requested[k]) is Read));
                }
                TurnAction::Finish(Err(e))
            },
            Ok(calls) => {
                if calls.len() == 0 {
                    proof {
                        assert(calls_view(calls@).len() == calls@.len());
                        assert(requested.map_values(|c: JsonValue| read_call(c)->Read_0).len()
                            == requested.len());
                        assert(requested.len() == 0);
                    }
                    let text = extract_text_response(response);
                    self.finish_with(state, text)
                } else {
                    proof {
                        assert(calls_view(calls@).len() == requested.len());
                        assert forall|k: int| 0 <= k < requested.len() implies #[trigger] read_call(
                            requested[k],
                        ) is Read by {}
                    }
                    let message = copy_reply_message(response);
                    let ghost before = self.messages@;
                    self.messages.push(message);
                    proof {
                        lemma_items_view_push(before, message);
                    }
                    let first = &calls[0];
                    let action = TurnAction::RunTool {
                        name: first.name.clone(),
                        parameters: first.parameters.clone(),
                    };
                    proof {
                        assert(calls_view(calls@)[0] == calls@[0]@);
                    }
                    self.phase = Phase::RunningTools { calls, next: 0 };
                    action
                }
            },
        }
    }

    fn on_tool_outcome(
        &mut self,
        state: &mut ConversationState,
        calls: Vec<FunctionCall>,
        next: usize,
        outcome: Result<Json, BotError>,
    ) -> (action: TurnAction)
        requires
            1 <= old(self).llm_calls <= MAX_TOOL_ITERATIONS,
            next < calls@.len(),
            old(self).phase is Done,
        ensures
            final(self)@.wf(),
            step_spec(
                TurnView {
                    phase: PhaseView::RunningTools { calls: calls_view(calls@), next: next as nat },
                    ..old(self)@
                },
                old(state).history(),
                old(state).is_persisted(),
                outcome_view(outcome),
                final(self)@,
                final(state).history(),
                action@,
            ),
            final(state).family_id == old(state).family_id,
            final(state).mode == old(state).mode,
            final(state).is_persisted() == old(state).is_persisted(),
    {
        let ghost outcome_v = outcome_view(outcome);
        let text = match outcome {
            Ok(v) => match v.to_text() {
                Ok(t) => t,
                Err(e) => {
                    return TurnAction::Finish(Err(e));
                },
            },
            Err(e) => {
                let mut t = String::from_str("Error: ");
                let detail = e.to_string();
                t.append(detail.as_str());
                assert(e.is_text(detail@) && t@ == "Error: "@ + detail@);
                t
            },
        };
        assert(tool_outcome_text(outcome_v, text@));
        let call_id = calls[next].id.as_str();
        let entry = tool_message(call_id, text.as_str());
        let ghost before = self.messages@;
        self.messages.push(entry);
        proof {
            lemma_items_view_push(before, entry);
            assert(calls_view(calls@)[next as int] == calls@[next as int]@);
        }
        state.add_message("tool", text.as_str(), None);
        let count = calls.len();
        if next < count - 1 {
            let following = &calls[next + 1];
            let action = TurnAction::RunTool {
                name: following.name.clone(),
                parameters: following.parameters.clone(),
            };
            proof {
                assert(calls_view(calls@)[next + 1] == calls@[next + 1]@);
            }
            self.phase = Phase::RunningTools { calls, next: next + 1 };
            action
        } else {
            self.call_llm()
        }
    }
}

// ---------------------------------------------------------------------------
// The orchestrator
// ---------------------------------------------------------------------------

/// Connects the LLM with the plugins: knows the functions the plugins offer,
/// the model to ask and the home's entity hints.
pub struct Orchestrator {
    pub registry: PluginRegistry,
    pub model: String,
    /// Hints about known entities of the home, added to the system prompt.
    pub entity_hints: Option<String>,
}

impl Orchestrator {
    pub fn new(registry: PluginRegistry, model: String, entity_hints: Option<String>) -> (o: Self)
        ensures
            o.registry@ == registry@,
            o.model@ == model@,
            crate::state::opt_string_view(o.entity_hints) == crate::state::opt_string_view(entity_hints),
    {
        Orchestrator { registry, model, entity_hints }
    }

    /// Begins processing `user_message` from `sender_name`: the turn, and
    /// the first action to perform (see `AgentTurn::start`); all functions
    /// of all plugins are announced as tools.
    pub fn process_message(
        &self,
        user_message: &str,
        sender_name: Option<&str>,
        state: &mut ConversationState,
    ) -> (r: (AgentTurn, TurnAction))
        ensures
            r.0@.wf(),
            r.0@.messages == opening_messages(
                crate::state::opt_string_view(self.entity_hints),
                old(state).history(),
                user_message@,
                opt_str_view(sender_name),
            ),
            r.0@.tools == announced_tools(all_functions(self.registry@)),
            r.0@.model == self.model@,
            final(state).history() == old(state).history().push(
                MessageView {
                    role: "user"@,
                    content: user_message@,
                    sender_name: opt_str_view(sender_name),
                },
            ),
            final(state).family_id == old(state).family_id,
            final(state).mode == old(state).mode,
            final(state).is_persisted() == old(state).is_persisted(),
            if old(state).is_persisted() {
                &&& r.0@.phase == PhaseView::SavingUser
                &&& r.1@ == ActionView::Persist {
                    role: "user"@,
                    content: user_message@,
                    sender_name: opt_str_view(sender_name),
                }
            } else {
                &&& r.0@.phase == PhaseView::AwaitingReply
                &&& r.0@.llm_calls == 1
                &&& r.1@ == ActionView::CallLlm {
                    messages: r.0@.messages,
                    tools: r.0@.tools,
                    model: r.0@.model,
                }
            },
    {
        let functions = self.registry.get_all_functions();
        let hints = match &self.entity_hints {
            Some(h) => Some(h.as_str()),
            None => None,
        };
        AgentTurn::start(self.model.as_str(), hints, state, user_message, sender_name, &functions)
    }
}

} // verus!
