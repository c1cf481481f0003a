//! The news agent: the model is offered a news search tool, the search that
//! it asks for is run, and the model answers again with the articles found.
//! The service performs each requested action and reports its outcome as the
//! next event.

use vstd::prelude::*;
use crate::batches::{invalid_upstream, json_error_display};
use crate::error::AppError;
use crate::json::{
    JsonMember, JsonValue, completion_content, completion_text, field, into_field, into_item,
    is_text_object, json_field, json_item, json_text, text, text_member,
};

verus! {

/// The instructions of the news agent.
pub const AGENT_SYSTEM_PROMPT: &'static str = "
You are a trend analysis backend service.

Use only tool results.

Return exactly:

Main topics:
- ...

Recurring themes:
- ...

Articles analyzed: <count>

Rules:

- Do not list articles.
- Do not quote article titles.
- Do not explain individual articles.
- Do not generate reports.
- Do not generate summaries longer than 10 lines.
- Use only information present in tool results.
- Keep the response under 100 words.
";

/// The description of the news search tool offered to the model.
pub const SEARCH_NEWS_TOOL_SCHEMA: &'static str = r#"
{
    "type": "function",
    "function": {
        "name": "search_news",
        "description": "Search news articles",
        "parameters": {
            "type": "object",
            "properties": {
                "keyword": {
                    "type": "string"
                },
                "limit": {
                    "type": "integer",
                    "description": "Maximum number of articles",
                    "default": 10
                }
            },
            "required": ["keyword"]
        }
    }
}"#;

/// How many articles the search tool finds when the model names no limit.
pub const DEFAULT_TOOL_SEARCH_LIMIT: u64 = 10;

/// What `serde_json::from_str::<Value>` gives for a text.
pub uninterp spec fn parsed_json(text: Seq<char>) -> Result<serde_json::Value, serde_json::Error>;

/// What `Value::get` with a key gives: the member of an object.
pub uninterp spec fn value_member(v: serde_json::Value, key: Seq<char>) -> Option<serde_json::Value>;

/// What `Value::as_str` gives: the text of a string value.
pub uninterp spec fn value_text(v: serde_json::Value) -> Option<Seq<char>>;

/// What `Value::as_u64` gives: a number that fits in a `u64`.
pub uninterp spec fn value_u64(v: serde_json::Value) -> Option<u64>;

/// Reads one JSON value from a text (`serde_json::from_str`).
#[verifier::external_body]
fn parse_json_value(text: &str) -> (r: Result<serde_json::Value, serde_json::Error>)
    ensures
        match r {
            Ok(v) => parsed_json(text@) matches Ok(w) && w == v,
            Err(e) => parsed_json(text@) matches Err(f) && f == e,
        },
{
    serde_json::from_str(text)
}

/// The member `key` of an object value (`Value::get`).
#[verifier::external_body]
fn member_of<'a>(v: &'a serde_json::Value, key: &str) -> (r: Option<&'a serde_json::Value>)
    ensures
        match value_member(*v, key@) {
            Some(x) => r matches Some(y) && *y == x,
            None => r is None,
        },
{
    v.get(key)
}

/// The text of a string value (`Value::as_str`).
#[verifier::external_body]
fn text_of_value(v: &serde_json::Value) -> (r: Option<String>)
    ensures
        match value_text(*v) {
            Some(t) => r matches Some(s) && s@ == t,
            None => r is None,
        },
{
    v.as_str().map(str::to_owned)
}

/// A number value that fits in a `u64` (`Value::as_u64`).
#[verifier::external_body]
fn u64_of_value(v: &serde_json::Value) -> (r: Option<u64>)
    ensures
        r == value_u64(*v),
{
    v.as_u64()
}

/// The first tool call of an answer message: `tool_calls[0]`.
pub open spec fn first_tool_call(message: JsonValue) -> Option<JsonValue> {
    match json_field(message, "tool_calls"@) {
        JsonValue::Array(calls) => if calls@.len() > 0 {
            Some(calls@[0])
        } else {
            None
        },
        _ => None,
    }
}

/// The text of a member of an optional value.
pub open spec fn member_text(v: Option<serde_json::Value>) -> Option<Seq<char>> {
    match v {
        Some(x) => value_text(x),
        None => None,
    }
}

/// The `u64` number of a member of an optional value.
pub open spec fn member_u64(v: Option<serde_json::Value>) -> Option<u64> {
    match v {
        Some(x) => value_u64(x),
        None => None,
    }
}

/// The keyword and limit of the news search that the first tool call asks
/// for: its `function.arguments` text read as JSON, with a `keyword` text and
/// an optional `limit`, ten when absent. `Ok(None)` when there is no tool
/// call; the error text when the call cannot be read.
pub open spec fn tool_search_args(message: JsonValue) -> Result<Option<(Seq<char>, u64)>, Seq<char>> {
    match first_tool_call(message) {
        None => Ok(None),
        Some(call) => match json_text(json_field(json_field(call, "function"@), "arguments"@)) {
            None => Err("missing tool_calls[0].function.arguments"@),
            Some(args) => match parsed_json(args) {
                Err(e) => Err("invalid tool_calls[0].function.arguments: "@ + json_error_display(e)),
                Ok(v) => match member_text(value_member(v, "keyword"@)) {
                    None => Err("missing search_news keyword"@),
                    Some(k) => Ok(
                        Some(
                            (
                                k,
                                match member_u64(value_member(v, "limit"@)) {
                                    Some(n) => n,
                                    None => DEFAULT_TOOL_SEARCH_LIMIT,
                                },
                            ),
                        ),
                    ),
                },
            },
        },
    }
}

/// The keyword and limit of the news search that an answer message asks for
/// in its first tool call; `None` when it makes no tool call.
pub fn extract_tool_search_news_args(message: &JsonValue) -> (r: Result<Option<(String, u64)>, AppError>)
    ensures
        match tool_search_args(*message) {
            Ok(None) => r matches Ok(None),
            Ok(Some((k, n))) => r matches Ok(Some((kw, lim))) && kw@ == k && lim == n,
            Err(m) => r matches Err(AppError::InvalidUpstream(t)) && t@ == m,
        },
{
    let call = match field(message, "tool_calls") {
        JsonValue::Array(calls) => if calls.len() > 0 {
            &calls[0]
        } else {
            return Ok(None);
        },
        _ => {
            return Ok(None);
        },
    };
    let args = match text(field(field(call, "function"), "arguments")) {
        Some(a) => a,
        None => {
            return Err(
                AppError::InvalidUpstream(String::from_str("missing tool_calls[0].function.arguments")),
            );
        },
    };
    let v = match parse_json_value(args.as_str()) {
        Ok(v) => v,
        Err(e) => {
            return Err(invalid_upstream("invalid tool_calls[0].function.arguments: ", &e));
        },
    };
    let keyword = match member_of(&v, "keyword") {
        Some(k) => text_of_value(k),
        None => None,
    };
    let keyword = match keyword {
        Some(k) => k,
        None => {
            return Err(AppError::InvalidUpstream(String::from_str("missing search_news keyword")));
        },
    };
    let limit = match member_of(&v, "limit") {
        Some(l) => u64_of_value(l),
        None => None,
    };
    let limit = match limit {
        Some(n) => n,
        None => DEFAULT_TOOL_SEARCH_LIMIT,
    };
    Ok(Some((keyword, limit)))
}

/// The id of the first tool call of an answer message.
pub open spec fn tool_call_id_of(message: JsonValue) -> Option<Seq<char>> {
    match first_tool_call(message) {
        Some(call) => json_text(json_field(call, "id"@)),
        None => None,
    }
}

/// The id of the first tool call of an answer message; an invalid-upstream
/// error when it has none.
pub fn tool_call_id(message: &JsonValue) -> (r: Result<String, AppError>)
    ensures
        match tool_call_id_of(*message) {
            Some(t) => r matches Ok(s) && s@ == t,
            None => r matches Err(AppError::InvalidUpstream(m)) && m@ == "missing tool_calls[0].id"@,
        },
{
    let id = match field(message, "tool_calls") {
        JsonValue::Array(calls) => if calls.len() > 0 {
            text(field(&calls[0], "id"))
        } else {
            None
        },
        _ => None,
    };
    match id {
        Some(t) => Ok(t),
        None => Err(AppError::InvalidUpstream(String::from_str("missing tool_calls[0].id"))),
    }
}

/// A chat message of the given role and content.
pub fn role_message(role: &str, content: &str) -> (r: JsonValue)
    ensures
        is_text_object(r, seq![("role"@, role@), ("content"@, content@)]),
{
    let mut ms: Vec<JsonMember> = Vec::new();
    ms.push(text_member("role", role));
    ms.push(text_member("content", content));
    JsonValue::Object(ms)
}

/// The message that hands the search tool's result back to the model.
pub fn tool_message(tool_call_id: &str, content: &str) -> (r: JsonValue)
    ensures
        is_text_object(
            r,
            seq![("role"@, "tool"@), ("tool_call_id"@, tool_call_id@), ("content"@, content@)],
        ),
{
    let mut ms: Vec<JsonMember> = Vec::new();
    ms.push(text_member("role", "tool"));
    ms.push(text_member("tool_call_id", tool_call_id));
    ms.push(text_member("content", content));
    JsonValue::Object(ms)
}

/// A request to the model: the model, the conversation so far, and whether
/// the news search tool is offered.
#[derive(Debug)]
pub struct AgentRequest {
    pub model: String,
    pub messages: Vec<JsonValue>,
    pub with_search_tool: bool,
}

/// Where the agent stands.
#[derive(Debug)]
pub enum AgentState {
    /// The model's first answer to the prompt is awaited.
    AwaitingFirstAnswer { prompt: String },
    /// The news search that the model's answer `message` asked for is awaited.
    AwaitingNews { prompt: String, message: JsonValue },
    /// The model's answer with the search result is awaited.
    AwaitingFinalAnswer,
    Finished,
}

/// The outcome of the action the agent requested last.
#[derive(Debug)]
pub enum AgentEvent {
    FirstAnswer(Result<JsonValue, AppError>),
    NewsFound(Result<String, AppError>),
    FinalAnswer(Result<JsonValue, AppError>),
}

/// What the service is to do next for the agent.
#[derive(Debug)]
pub enum AgentAction {
    /// Send the request to the model.
    RequestCompletion(AgentRequest),
    /// Search the news for at most `limit` articles about `keyword`.
    SearchNews { keyword: String, limit: u64 },
    /// The agent is done, with this outcome.
    Finish(Result<String, AppError>),
}

/// How far the agent has come: each step takes it further.
pub open spec fn agent_progress(s: AgentState) -> int {
    match s {
        AgentState::AwaitingFirstAnswer { .. } => 1,
        AgentState::AwaitingNews { .. } => 2,
        AgentState::AwaitingFinalAnswer => 3,
        AgentState::Finished => 4,
    }
}

/// The event is the outcome of what the state waits for.
pub open spec fn agent_event_fits(state: AgentState, event: AgentEvent) -> bool {
    match state {
        AgentState::AwaitingFirstAnswer { .. } => event is FirstAnswer,
        AgentState::AwaitingNews { .. } => event is NewsFound,
        AgentState::AwaitingFinalAnswer => event is FinalAnswer,
        AgentState::Finished => false,
    }
}

/// The system message and the user's prompt.
pub open spec fn opening_messages(messages: Seq<JsonValue>, prompt: Seq<char>) -> bool {
    &&& messages.len() >= 2
    &&& is_text_object(messages[0], seq![("role"@, "system"@), ("content"@, AGENT_SYSTEM_PROMPT@)])
    &&& is_text_object(messages[1], seq![("role"@, "user"@), ("content"@, prompt)])
}

/// The answer message of a completion: `choices[0].message`, or `null`.
pub open spec fn answer_message(answer: JsonValue) -> JsonValue {
    json_field(json_item(json_field(answer, "choices"@), 0), "message"@)
}

/// The agent ends with an invalid-upstream error of this text.
pub open spec fn agent_fails_invalid(next: (AgentState, AgentAction), m: Seq<char>) -> bool {
    &&& next.0 is Finished
    &&& next.1 matches AgentAction::Finish(Err(AppError::InvalidUpstream(t)))
    &&& t@ == m
}

/// The agent ends with this error.
pub open spec fn agent_fails_with(next: (AgentState, AgentAction), e: AppError) -> bool {
    next.0 is Finished && next.1 == AgentAction::Finish(Err::<String, AppError>(e))
}

/// Starts the agent: the model is asked the prompt, with the news search
/// tool offered.
pub fn begin_agent(model: &str, prompt: &str) -> (next: (AgentState, AgentAction))
    ensures
        next.0 matches AgentState::AwaitingFirstAnswer { prompt: p } && p@ == prompt@,
        next.1 matches AgentAction::RequestCompletion(req) && req.model@ == model@
            && req.with_search_tool && req.messages@.len() == 2 && opening_messages(
            req.messages@,
            prompt@,
        ),
{
    let mut messages: Vec<JsonValue> = Vec::new();
    messages.push(role_message("system", AGENT_SYSTEM_PROMPT));
    messages.push(role_message("user", prompt));
    (
        AgentState::AwaitingFirstAnswer { prompt: String::from_str(prompt) },
        AgentAction::RequestCompletion(
            AgentRequest { model: String::from_str(model), messages, with_search_tool: true },
        ),
    )
}

/// Takes the agent one step further, given the outcome of the action it
/// requested last. A failed action ends the agent with its error. The first
/// answer must ask for a news search through its first tool call; the
/// search's result is handed back to the model, with the whole conversation,
/// and the model's final message text is the outcome.
pub fn agent_step(model: &str, state: AgentState, event: AgentEvent) -> (next: (AgentState, AgentAction))
    requires
        agent_event_fits(state, event),
    ensures
        agent_progress(next.0) > agent_progress(state),
        (next.0 is Finished) == (next.1 is Finish),
        match event {
            AgentEvent::FirstAnswer(Err(e)) => agent_fails_with(next, e),
            AgentEvent::FirstAnswer(Ok(answer)) => match tool_search_args(answer_message(answer)) {
                Err(m) => agent_fails_invalid(next, m),
                Ok(None) => agent_fails_invalid(next, "missing tool_calls[0]"@),
                Ok(Some((k, n))) => {
                    &&& next.0 matches AgentState::AwaitingNews { prompt: p, message: msg }
                    &&& state matches AgentState::AwaitingFirstAnswer { prompt: p0 }
                    &&& p@ == p0@
                    &&& msg == answer_message(answer)
                    &&& next.1 matches AgentAction::SearchNews { keyword: kw, limit: lim }
                    &&& kw@ == k
                    &&& lim == n
                },
            },
            AgentEvent::NewsFound(Err(e)) => agent_fails_with(next, e),
            AgentEvent::NewsFound(Ok(news)) => match state {
                AgentState::AwaitingNews { prompt, message } => match tool_call_id_of(message) {
                    None => agent_fails_invalid(next, "missing tool_calls[0].id"@),
                    Some(id) => {
                        &&& next.0 is AwaitingFinalAnswer
                        &&& next.1 matches AgentAction::RequestCompletion(req)
                        &&& req.model@ == model@
                        &&& !req.with_search_tool
                        &&& req.messages@.len() == 4
                        &&& opening_messages(req.messages@, prompt@)
                        &&& req.messages@[2] == message
                        &&& is_text_object(
                            req.messages@[3],
                            seq![("role"@, "tool"@), ("tool_call_id"@, id), ("content"@, news@)],
                        )
                    },
                },
                _ => false,
            },
            AgentEvent::FinalAnswer(Err(e)) => agent_fails_with(next, e),
            AgentEvent::FinalAnswer(Ok(answer)) => match completion_text(answer) {
                Some(t) => {
                    &&& next.0 is Finished
                    &&& next.1 matches AgentAction::Finish(Ok(s))
                    &&& s@ == t
                },
                None => agent_fails_invalid(next, "missing choices[0].message.content"@),
            },
        },
{
    match event {
        AgentEvent::FirstAnswer(Err(e)) => (AgentState::Finished, AgentAction::Finish(Err(e))),
        AgentEvent::FirstAnswer(Ok(answer)) => {
            let prompt = match state {
                AgentState::AwaitingFirstAnswer { prompt } => prompt,
                _ => vstd::pervasive::unreached(),
            };
            let message = into_field(into_item(into_field(answer, "choices"), 0), "message");
            match extract_tool_search_news_args(&message) {
                Err(e) => (AgentState::Finished, AgentAction::Finish(Err(e))),
                Ok(None) => (
                    AgentState::Finished,
                    AgentAction::Finish(
                        Err(AppError::InvalidUpstream(String::from_str("missing tool_calls[0]"))),
                    ),
                ),
                Ok(Some((keyword, limit))) => (
                    AgentState::AwaitingNews { prompt, message },
                    AgentAction::SearchNews { keyword, limit },
                ),
            }
        },
        AgentEvent::NewsFound(Err(e)) => (AgentState::Finished, AgentAction::Finish(Err(e))),
        AgentEvent::NewsFound(Ok(news)) => {
            let (prompt, message) = match state {
                AgentState::AwaitingNews { prompt, message } => (prompt, message),
                _ => vstd::pervasive::unreached(),
            };
            let id = match tool_call_id(&message) {
                Ok(id) => id,
                Err(e) => {
                    return (AgentState::Finished, AgentAction::Finish(Err(e)));
                },
            };
            let mut messages: Vec<JsonValue> = Vec::new();
            messages.push(role_message("system", AGENT_SYSTEM_PROMPT));
            messages.push(role_message("user", prompt.as_str()));
            messages.push(message);
            messages.push(tool_message(id.as_str(), news.as_str()));
            (
                AgentState::AwaitingFinalAnswer,
                AgentAction::RequestCompletion(
                    AgentRequest { model: String::from_str(model), messages, with_search_tool: false },
                ),
            )
        },
        AgentEvent::FinalAnswer(Err(e)) => (AgentState::Finished, AgentAction::Finish(Err(e))),
        AgentEvent::FinalAnswer(Ok(answer)) => (
            AgentState::Finished,
            AgentAction::Finish(completion_content(&answer)),
        ),
    }
}

} // verus!
