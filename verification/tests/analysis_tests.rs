use trend_analyzes::analysis::{
    analysis_step, begin_analysis, chat_message, combine_analyses, completion_request,
    AnalysisAction, AnalysisEvent, AnalysisState, BATCH_ANALYSIS_PROMPT, FINAL_ANALYSIS_PROMPT, SEARCH_LIMIT,
};
use trend_analyzes::error::AppError;
use trend_analyzes::json::{JsonMember, JsonValue};
use trend_analyzes::model::SearchSource;
use trend_analyzes::text::build_search_query;

fn answer(content: &str) -> JsonValue {
    let member = |k: &str, v: JsonValue| JsonMember { key: k.to_owned(), value: v };
    JsonValue::Object(vec![member(
        "choices",
        JsonValue::Array(vec![JsonValue::Object(vec![member(
            "message",
            JsonValue::Object(vec![member("content", JsonValue::Str(content.to_owned()))]),
        )])]),
    )])
}

#[test]
fn chat_message_joins_with_comma_space() {
    let kws = vec![" rust ".to_owned(), "".to_owned(), "ai".to_owned(), "  ".to_owned()];
    assert_eq!(chat_message(&kws).unwrap(), "rust, ai");
}

#[test]
fn chat_message_without_keywords_is_bad_request() {
    for kws in [vec![], vec![" ".to_owned(), "\t".to_owned()]] {
        match chat_message(&kws) {
            Err(AppError::BadRequest(m)) => assert_eq!(m, "keywords must contain at least one value"),
            other => panic!("unexpected {other:?}"),
        }
    }
}

#[test]
fn default_source_is_news() {
    assert_eq!(SearchSource::default(), SearchSource::News);
}

#[test]
fn chat_message_read_again_gives_space_joined_query() {
    let kws = vec![" climate ".to_owned(), "energy  policy".to_owned(), " ".to_owned()];
    let message = chat_message(&kws).unwrap();
    assert_eq!(build_search_query(&message), "climate energy  policy");
}

#[test]
fn begin_asks_for_twenty_articles() {
    match begin_analysis("rust, ai", SearchSource::News, false) {
        (AnalysisState::AwaitingArticles, AnalysisAction::SearchArticles { source, query, limit }) => {
            assert_eq!(source, SearchSource::News);
            assert_eq!(query, "rust ai");
            assert_eq!(limit, SEARCH_LIMIT);
            assert_eq!(limit, 20);
        }
        other => panic!("unexpected {other:?}"),
    }
}

#[test]
fn begin_reddit_without_client_fails() {
    match begin_analysis("x", SearchSource::Reddit, false) {
        (AnalysisState::Finished, AnalysisAction::Finish(Err(AppError::MissingConfig(n)))) => {
            assert_eq!(n, "REDDIT_CLIENT_ID")
        }
        other => panic!("unexpected {other:?}"),
    }
    assert!(matches!(
        begin_analysis("x", SearchSource::Reddit, true),
        (AnalysisState::AwaitingArticles, AnalysisAction::SearchArticles { source: SearchSource::Reddit, .. })
    ));
}

#[test]
fn completion_request_has_system_and_user_messages() {
    let r = completion_request("gpt", "sys", "usr");
    assert_eq!(r.model, "gpt");
    assert_eq!(r.messages.len(), 2);
    assert_eq!((r.messages[0].role.as_str(), r.messages[0].content.as_str()), ("system", "sys"));
    assert_eq!((r.messages[1].role.as_str(), r.messages[1].content.as_str()), ("user", "usr"));
}

#[test]
fn combined_analyses_text() {
    assert_eq!(
        combine_analyses("A", "B"),
        "First news-search analysis:\nA\n\nSecond news-search analysis:\nB"
    );
}

#[test]
fn full_analysis_runs_through_all_steps() {
    let model = "m";
    let (state, action) = analysis_step(
        model,
        AnalysisState::AwaitingArticles,
        AnalysisEvent::Articles(Ok("[1,2,3]".to_owned())),
    );
    assert_eq!(state, AnalysisState::AwaitingBatchAnalyses);
    match action {
        AnalysisAction::RequestCompletions { first, second } => {
            assert_eq!(first.messages[0].content, BATCH_ANALYSIS_PROMPT);
            assert_eq!(first.messages[1].content, "[1,2]");
            assert_eq!(second.messages[1].content, "[3]");
            assert_eq!(second.model, "m");
        }
        other => panic!("unexpected {other:?}"),
    }
    let (state, action) = analysis_step(
        model,
        state,
        AnalysisEvent::BatchAnalyses(Ok((answer("one"), answer("two")))),
    );
    assert_eq!(state, AnalysisState::AwaitingFinalAnalysis);
    match action {
        AnalysisAction::RequestCompletion { request } => {
            assert_eq!(request.messages[0].content, FINAL_ANALYSIS_PROMPT);
            assert_eq!(
                request.messages[1].content,
                "First news-search analysis:\none\n\nSecond news-search analysis:\ntwo"
            );
        }
        other => panic!("unexpected {other:?}"),
    }
    let (state, action) = analysis_step(model, state, AnalysisEvent::FinalAnalysis(Ok(answer("final"))));
    assert_eq!(state, AnalysisState::Finished);
    match action {
        AnalysisAction::Finish(Ok(t)) => assert_eq!(t, "final"),
        other => panic!("unexpected {other:?}"),
    }
}

#[test]
fn failed_search_ends_analysis_with_its_error() {
    let (state, action) = analysis_step(
        "m",
        AnalysisState::AwaitingArticles,
        AnalysisEvent::Articles(Err(AppError::BadRequest("x".to_owned()))),
    );
    assert_eq!(state, AnalysisState::Finished);
    assert!(matches!(action, AnalysisAction::Finish(Err(AppError::BadRequest(m))) if m == "x"));
}

#[test]
fn unparsable_articles_end_analysis() {
    let (state, action) = analysis_step(
        "m",
        AnalysisState::AwaitingArticles,
        AnalysisEvent::Articles(Ok("oops".to_owned())),
    );
    assert_eq!(state, AnalysisState::Finished);
    assert!(matches!(action, AnalysisAction::Finish(Err(AppError::InvalidUpstream(m))) if m.starts_with("failed to parse news articles: ")));
}

#[test]
fn batch_answer_without_content_ends_analysis() {
    let (state, action) = analysis_step(
        "m",
        AnalysisState::AwaitingBatchAnalyses,
        AnalysisEvent::BatchAnalyses(Ok((answer("one"), JsonValue::Null))),
    );
    assert_eq!(state, AnalysisState::Finished);
    assert!(matches!(action, AnalysisAction::Finish(Err(AppError::InvalidUpstream(m))) if m == "missing choices[0].message.content"));
}

#[test]
fn final_failure_ends_analysis() {
    let (state, action) = analysis_step(
        "m",
        AnalysisState::AwaitingFinalAnalysis,
        AnalysisEvent::FinalAnalysis(Err(AppError::MissingConfig("k".to_owned()))),
    );
    assert_eq!(state, AnalysisState::Finished);
    assert!(matches!(action, AnalysisAction::Finish(Err(AppError::MissingConfig(_)))));
}
