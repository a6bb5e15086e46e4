//! The LLM behind LM Studio's OpenAI-compatible API: the request it is sent.
use vstd::prelude::*;

use crate::error::BotError;
use crate::json::{
    array_of, items_view, json_string, jstr, lemma_lookup_at, lemma_members_view, lookup, members_view, Json,
    JsonValue,
};
use crate::plugins::{http_failure, http_failure_text};

verus! {

/// The URL of the chat completions endpoint under `base`.
pub fn chat_completions_url(base: &str) -> (url: String)
    ensures
        url@ == base@ + "/v1/chat/completions"@,
{
    let mut url = String::from_str(base);
    url.append("/v1/chat/completions");
    url
}

/// The body of a chat completion request (the sampling temperature is added
/// by the caller): the model and the messages, and where there are tools,
/// the tools with the choice among them left to the model.
pub open spec fn chat_body(model: Seq<char>, messages: Seq<JsonValue>, tools: Seq<JsonValue>) -> JsonValue {
    JsonValue::Object(
        seq![("model"@, jstr(model)), ("messages"@, JsonValue::Array(messages))] + if tools.len() > 0 {
            seq![("tools"@, JsonValue::Array(tools)), ("tool_choice"@, jstr("auto"@))]
        } else {
            Seq::empty()
        },
    )
}

/// A chat request asks the model given and shows the LLM exactly the
/// messages given, with or without tools; it announces the tools, leaving
/// the choice among them to the model, exactly where there are some.
pub proof fn lemma_chat_body_members(
    model: Seq<char>,
    messages: Seq<JsonValue>,
    tools: Seq<JsonValue>,
)
    ensures
        chat_body(model, messages, tools).field("model"@) == jstr(model),
        chat_body(model, messages, tools).field("messages"@) == JsonValue::Array(messages),
        tools.len() > 0 ==> chat_body(model, messages, tools).field("tools"@) == JsonValue::Array(
            tools,
        ) && chat_body(model, messages, tools).field("tool_choice"@) == jstr("auto"@),
        tools.len() == 0 ==> chat_body(model, messages, tools).get("tools"@) is None && chat_body(
            model,
            messages,
            tools,
        ).get("tool_choice"@) is None,
{
    reveal_strlit("model");
    reveal_strlit("messages");
    reveal_strlit("tools");
    reveal_strlit("tool_choice");
    let members = chat_body(model, messages, tools)->Object_0;
    assert(members[0].0.len() != "messages"@.len());
    lemma_lookup_at(members, "model"@, 0);
    lemma_lookup_at(members, "messages"@, 1);
    if tools.len() > 0 {
        assert(members[0].0[0] != "tools"@[0] && members[1].0.len() != "tools"@.len());
        assert(members[0].0.len() != "tool_choice"@.len() && members[1].0.len()
            != "tool_choice"@.len() && members[2].0.len() != "tool_choice"@.len());
        lemma_lookup_at(members, "tools"@, 2);
        lemma_lookup_at(members, "tool_choice"@, 3);
    } else {
        assert(members.len() == 2);
        assert(members.drop_first().drop_first().len() == 0);
        reveal_with_fuel(lookup, 3);
        assert(members[0].0[0] != "tools"@[0] && members[1].0.len() != "tools"@.len());
        assert(members[0].0.len() != "tool_choice"@.len() && members[1].0.len()
            != "tool_choice"@.len());
        assert(members.drop_first()[0] == members[1]);
    }
}

/// Builds the body of a chat completion request.
pub fn chat_request_body(model: &str, messages: Vec<Json>, tools: Vec<Json>) -> (body: Json)
    ensures
        body@ == chat_body(model@, items_view(messages@), items_view(tools@)),
{
    let has_tools = tools.len() > 0;
    let ghost tv = items_view(tools@);
    let ghost mv = items_view(messages@);
    let mut members: Vec<(String, Json)> = vec![
        crate::json::member("model", json_string(model)),
        crate::json::member("messages", array_of(messages)),
    ];
    if has_tools {
        members.push(crate::json::member("tools", array_of(tools)));
        members.push(crate::json::member("tool_choice", json_string("auto")));
    }
    proof {
        lemma_members_view(members@);
        assert(members_view(members@) =~= seq![("model"@, jstr(model@)), ("messages"@, JsonValue::Array(mv))] + if has_tools {
            seq![("tools"@, JsonValue::Array(tv)), ("tool_choice"@, jstr("auto"@))]
        } else {
            Seq::empty()
        });
    }
    Json::Object(members)
}

/// The error for a failed exchange with LM Studio.
pub fn llm_http_error(status: &str, body: &str) -> (e: BotError)
    ensures
        e matches BotError::LMStudio(m) && m@ == http_failure(status@, body@),
{
    BotError::LMStudio(http_failure_text(status, body))
}

} // verus!
