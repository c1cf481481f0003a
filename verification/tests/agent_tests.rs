use trend_analyzes::agent::{
    agent_step, begin_agent, extract_tool_search_news_args, tool_call_id, AgentAction, AgentEvent, AgentState,
    AGENT_SYSTEM_PROMPT,
};
use trend_analyzes::error::AppError;
use trend_analyzes::json::{field, text, JsonMember, JsonValue};
use trend_analyzes::launcher::{supervise, Service};

fn s(t: &str) -> JsonValue {
    JsonValue::Str(t.to_owned())
}

fn obj(members: Vec<(&str, JsonValue)>) -> JsonValue {
    JsonValue::Object(members.into_iter().map(|(k, v)| JsonMember { key: k.to_owned(), value: v }).collect())
}

fn tool_call_message(arguments: &str) -> JsonValue {
    obj(vec![
        ("role", s("assistant")),
        (
            "tool_calls",
            JsonValue::Array(vec![obj(vec![
                ("id", s("call_1")),
                ("type", s("function")),
                ("function", obj(vec![("name", s("search_news")), ("arguments", s(arguments))])),
            ])]),
        ),
    ])
}

fn answer(message: JsonValue) -> JsonValue {
    obj(vec![("choices", JsonValue::Array(vec![obj(vec![("message", message)])]))])
}

fn texts(v: &JsonValue) -> Vec<(String, String)> {
    match v {
        JsonValue::Object(ms) => ms
            .iter()
            .map(|m| (m.key.clone(), text(&m.value).unwrap_or_default()))
            .collect(),
        _ => vec![],
    }
}

#[test]
fn tool_args_with_limit_and_default() {
    let m = tool_call_message(r#"{"keyword":"rust","limit":5}"#);
    assert_eq!(extract_tool_search_news_args(&m).unwrap(), Some(("rust".to_owned(), 5)));
    let m = tool_call_message(r#"{"keyword":"ai"}"#);
    assert_eq!(extract_tool_search_news_args(&m).unwrap(), Some(("ai".to_owned(), 10)));
}

#[test]
fn tool_args_errors() {
    assert!(matches!(extract_tool_search_news_args(&obj(vec![("role", s("assistant"))])), Ok(None)));
    match extract_tool_search_news_args(&tool_call_message("{oops")) {
        Err(AppError::InvalidUpstream(m)) => assert!(m.starts_with("invalid tool_calls[0].function.arguments: ")),
        other => panic!("unexpected {other:?}"),
    }
    match extract_tool_search_news_args(&tool_call_message(r#"{"limit":3}"#)) {
        Err(AppError::InvalidUpstream(m)) => assert_eq!(m, "missing search_news keyword"),
        other => panic!("unexpected {other:?}"),
    }
    let no_args = obj(vec![("tool_calls", JsonValue::Array(vec![obj(vec![("id", s("x"))])]))]);
    match extract_tool_search_news_args(&no_args) {
        Err(AppError::InvalidUpstream(m)) => assert_eq!(m, "missing tool_calls[0].function.arguments"),
        other => panic!("unexpected {other:?}"),
    }
}

#[test]
fn tool_call_id_is_read() {
    assert_eq!(tool_call_id(&tool_call_message("{}")).unwrap(), "call_1");
    match tool_call_id(&obj(vec![])) {
        Err(AppError::InvalidUpstream(m)) => assert_eq!(m, "missing tool_calls[0].id"),
        other => panic!("unexpected {other:?}"),
    }
}

#[test]
fn agent_runs_through_all_steps() {
    let (state, action) = begin_agent("gpt", "rust, ai");
    match &action {
        AgentAction::RequestCompletion(req) => {
            assert_eq!(req.model, "gpt");
            assert!(req.with_search_tool);
            assert_eq!(texts(&req.messages[0]), vec![("role".into(), "system".into()), ("content".into(), AGENT_SYSTEM_PROMPT.into())]);
            assert_eq!(texts(&req.messages[1]), vec![("role".into(), "user".into()), ("content".into(), "rust, ai".into())]);
        }
        other => panic!("unexpected {other:?}"),
    }
    let (state, action) = agent_step(
        "gpt",
        state,
        AgentEvent::FirstAnswer(Ok(answer(tool_call_message(r#"{"keyword":"rust ai","limit":7}"#)))),
    );
    assert!(matches!(state, AgentState::AwaitingNews { .. }));
    assert!(matches!(&action, AgentAction::SearchNews { keyword, limit: 7 } if keyword == "rust ai"));
    let (state, action) = agent_step("gpt", state, AgentEvent::NewsFound(Ok("[]".to_owned())));
    assert!(matches!(state, AgentState::AwaitingFinalAnswer));
    match &action {
        AgentAction::RequestCompletion(req) => {
            assert!(!req.with_search_tool);
            assert_eq!(req.messages.len(), 4);
            assert_eq!(text(field(&req.messages[2], "role")), Some("assistant".to_owned()));
            assert_eq!(
                texts(&req.messages[3]),
                vec![("role".into(), "tool".into()), ("tool_call_id".into(), "call_1".into()), ("content".into(), "[]".into())]
            );
        }
        other => panic!("unexpected {other:?}"),
    }
    let (state, action) = agent_step(
        "gpt",
        state,
        AgentEvent::FinalAnswer(Ok(answer(obj(vec![("content", s("Main topics: x"))])))),
    );
    assert!(matches!(state, AgentState::Finished));
    assert!(matches!(action, AgentAction::Finish(Ok(t)) if t == "Main topics: x"));
}

#[test]
fn agent_without_tool_call_fails() {
    let (state, _) = begin_agent("m", "p");
    let (state, action) = agent_step("m", state, AgentEvent::FirstAnswer(Ok(answer(obj(vec![("content", s("hi"))])))));
    assert!(matches!(state, AgentState::Finished));
    assert!(matches!(action, AgentAction::Finish(Err(AppError::InvalidUpstream(m))) if m == "missing tool_calls[0]"));
    let (state, _) = begin_agent("m", "p");
    let (_, action) = agent_step("m", state, AgentEvent::FirstAnswer(Ok(JsonValue::Null)));
    assert!(matches!(action, AgentAction::Finish(Err(AppError::InvalidUpstream(m))) if m == "missing tool_calls[0]"));
}

#[test]
fn agent_final_answer_without_content_fails() {
    let (_, action) = agent_step("m", AgentState::AwaitingFinalAnswer, AgentEvent::FinalAnswer(Ok(JsonValue::Null)));
    assert!(matches!(action, AgentAction::Finish(Err(AppError::InvalidUpstream(m))) if m == "missing choices[0].message.content"));
}

#[test]
fn agent_news_failure_ends_agent() {
    let state = AgentState::AwaitingNews { prompt: "p".to_owned(), message: tool_call_message("{}") };
    let (state, action) = agent_step("m", state, AgentEvent::NewsFound(Err(AppError::BadRequest("x".into()))));
    assert!(matches!(state, AgentState::Finished));
    assert!(matches!(action, AgentAction::Finish(Err(AppError::BadRequest(_)))));
}

#[test]
fn supervise_stops_the_other_service() {
    assert_eq!(supervise(None, None), None);
    assert_eq!(
        supervise(Some("exit status: 1".to_owned()), None),
        Some((Service::AiService, "api-gateway exited with status exit status: 1".to_owned()))
    );
    assert_eq!(
        supervise(None, Some("exit status: 2".to_owned())),
        Some((Service::ApiGateway, "ai_service exited with status exit status: 2".to_owned()))
    );
    assert_eq!(supervise(Some("a".to_owned()), Some("b".to_owned())).unwrap().0, Service::AiService);
}
