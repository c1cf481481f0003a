//! The steps of a trend analysis: search articles, analyse them in two
//! batches, then combine the two analyses. The service performs each
//! requested action and reports its outcome as the next event.

use vstd::prelude::*;
use crate::batches::{article_batches, split_article_batches};
use crate::error::AppError;
use crate::json::{JsonValue, completion_content, completion_text};
use crate::model::SearchSource;
use crate::text::{add_clean_piece, build_search_query, chars_of, clean_pieces, join_with, search_query, string_from};

verus! {

/// The instructions for analysing one batch of articles.
pub const BATCH_ANALYSIS_PROMPT: &'static str = "
Analyze the provided news articles.

Use only the provided information.

Return:

Topics:

- ...

Themes:

- ...

Narrative:
...

Rules:

- Merge articles about the same subject.
- Do not list or quote article titles.
- Do not invent information.
- Keep the response under 80 words.
  ";

/// The instructions for combining the two batch analyses.
pub const FINAL_ANALYSIS_PROMPT: &'static str = "
You are a trend analysis backend service.

You will receive two short analyses from separate news searches.

Combine them and identify the strongest recurring trends.
Give more importance to topics found in both analyses.
Merge equivalent topics and themes.

Return exactly:

Main topics:
- ...

Recurring themes:
- ...

Dominant narrative:
- ...

Articles analyzed: <count>

Rules:
- Use only the provided analyses.
- Do not invent information.
- Do not list articles.
- Keep the response under 100 words.
";

/// How many articles a search is asked for.
pub const SEARCH_LIMIT: u64 = 20;

/// One message of a chat completion request.
#[derive(Debug, Clone)]
pub struct ChatMessage {
    pub role: String,
    pub content: String,
}

/// A chat completion request: the model and the conversation so far.
#[derive(Debug, Clone)]
pub struct ChatCompletionRequest {
    pub model: String,
    pub messages: Vec<ChatMessage>,
}

/// The texts of a request: its model, and the role and content of each
/// message in order.
pub open spec fn request_texts(r: ChatCompletionRequest) -> (Seq<char>, Seq<(Seq<char>, Seq<char>)>) {
    (r.model@, r.messages@.map_values(|m: ChatMessage| (m.role@, m.content@)))
}

/// The texts of a request made of a system message and a user message.
pub open spec fn system_user_texts(model: Seq<char>, system: Seq<char>, user: Seq<char>) -> (
    Seq<char>,
    Seq<(Seq<char>, Seq<char>)>,
) {
    (model, seq![("system"@, system), ("user"@, user)])
}

/// A completion request with the given instructions and user content.
pub fn completion_request(model: &str, system_prompt: &str, user_content: &str) -> (r:
    ChatCompletionRequest)
    ensures
        request_texts(r) == system_user_texts(model@, system_prompt@, user_content@),
{
    let mut messages: Vec<ChatMessage> = Vec::new();
    messages.push(ChatMessage { role: String::from_str("system"), content: String::from_str(system_prompt) });
    messages.push(ChatMessage { role: String::from_str("user"), content: String::from_str(user_content) });
    let r = ChatCompletionRequest { model: String::from_str(model), messages };
    assert(request_texts(r).1 =~= system_user_texts(model@, system_prompt@, user_content@).1);
    r
}

/// The user content of the final request: both batch analyses, labelled.
pub open spec fn combined_analyses(first: Seq<char>, second: Seq<char>) -> Seq<char> {
    "First news-search analysis:\n"@ + first + "\n\nSecond news-search analysis:\n"@ + second
}

/// Both batch analyses in one text, each under its label.
pub fn combine_analyses(first: &str, second: &str) -> (r: String)
    ensures
        r@ == combined_analyses(first@, second@),
{
    let mut r = String::from_str("First news-search analysis:\n");
    r.append(first);
    r.append("\n\nSecond news-search analysis:\n");
    r.append(second);
    r
}

/// Where an analysis stands.
#[derive(Clone, Copy, Debug, PartialEq, Eq, Structural)]
pub enum AnalysisState {
    AwaitingArticles,
    AwaitingBatchAnalyses,
    AwaitingFinalAnalysis,
    Finished,
}

/// How far an analysis has come: each step takes it further.
pub open spec fn progress(s: AnalysisState) -> int {
    match s {
        AnalysisState::AwaitingArticles => 1,
        AnalysisState::AwaitingBatchAnalyses => 2,
        AnalysisState::AwaitingFinalAnalysis => 3,
        AnalysisState::Finished => 4,
    }
}

/// The outcome of the action that an analysis requested last.
#[derive(Debug)]
pub enum AnalysisEvent {
    /// The search's JSON array of articles, or why it failed.
    Articles(Result<String, AppError>),
    /// The answers to both batch requests, or why they failed.
    BatchAnalyses(Result<(JsonValue, JsonValue), AppError>),
    /// The answer to the final request, or why it failed.
    FinalAnalysis(Result<JsonValue, AppError>),
}

/// What the service is to do next for an analysis.
#[derive(Debug)]
pub enum AnalysisAction {
    /// Search `source` for at most `limit` articles about `query`.
    SearchArticles { source: SearchSource, query: String, limit: u64 },
    /// Send both requests, concurrently.
    RequestCompletions { first: ChatCompletionRequest, second: ChatCompletionRequest },
    /// Send the request.
    RequestCompletion { request: ChatCompletionRequest },
    /// The analysis is over, with this outcome.
    Finish(Result<String, AppError>),
}

/// The event is the outcome of what the state waits for.
pub open spec fn event_fits(state: AnalysisState, event: AnalysisEvent) -> bool {
    match state {
        AnalysisState::AwaitingArticles => event is Articles,
        AnalysisState::AwaitingBatchAnalyses => event is BatchAnalyses,
        AnalysisState::AwaitingFinalAnalysis => event is FinalAnalysis,
        AnalysisState::Finished => false,
    }
}

/// The analysis ends with this error.
pub open spec fn fails_with(next: (AnalysisState, AnalysisAction), e: AppError) -> bool {
    next.0 == AnalysisState::Finished && next.1 == AnalysisAction::Finish(Err::<String, AppError>(e))
}

/// The analysis ends with an invalid-upstream error of this text.
pub open spec fn fails_invalid(next: (AnalysisState, AnalysisAction), m: Seq<char>) -> bool {
    &&& next.0 == AnalysisState::Finished
    &&& next.1 matches AnalysisAction::Finish(Err(AppError::InvalidUpstream(t)))
    &&& t@ == m
}

/// The error text of a completion answer without content.
pub open spec fn missing_content() -> Seq<char> {
    "missing choices[0].message.content"@
}

/// Starts an analysis of a comma-separated keyword list: search the source
/// for twenty articles about the keywords, or stop at once when Reddit is
/// asked for and no Reddit client is configured.
pub fn begin_analysis(prompt: &str, source: SearchSource, reddit_available: bool) -> (next: (
    AnalysisState,
    AnalysisAction,
))
    ensures
        source == SearchSource::Reddit && !reddit_available ==> {
            &&& next.0 == AnalysisState::Finished
            &&& next.1 matches AnalysisAction::Finish(Err(AppError::MissingConfig(n)))
            &&& n@ == "REDDIT_CLIENT_ID"@
        },
        !(source == SearchSource::Reddit && !reddit_available) ==> {
            &&& next.0 == AnalysisState::AwaitingArticles
            &&& next.1 matches AnalysisAction::SearchArticles { source: s, query: q, limit: l }
            &&& s == source
            &&& q@ == search_query(prompt@)
            &&& l == SEARCH_LIMIT
        },
{
    let query = build_search_query(prompt);
    if source == SearchSource::Reddit && !reddit_available {
        return (
            AnalysisState::Finished,
            AnalysisAction::Finish(Err(AppError::missing_config("REDDIT_CLIENT_ID"))),
        );
    }
    (AnalysisState::AwaitingArticles, AnalysisAction::SearchArticles { source, query, limit: SEARCH_LIMIT })
}

/// Takes an analysis one step further, given the outcome of the action it
/// requested last. A failed action ends the analysis with its error. The
/// articles are cut into two batches, each analysed with the batch
/// instructions; the two analyses are then combined with the final
/// instructions, and the combined analysis is the outcome.
pub fn analysis_step(model: &str, state: AnalysisState, event: AnalysisEvent) -> (next: (
    AnalysisState,
    AnalysisAction,
))
    requires
        event_fits(state, event),
    ensures
        progress(next.0) > progress(state),
        (next.0 == AnalysisState::Finished) == (next.1 is Finish),
        match event {
            AnalysisEvent::Articles(Err(e)) => fails_with(next, e),
            AnalysisEvent::Articles(Ok(articles)) => match article_batches(articles@) {
                Err(m) => fails_invalid(next, m),
                Ok((a, b)) => {
                    &&& next.0 == AnalysisState::AwaitingBatchAnalyses
                    &&& next.1 matches AnalysisAction::RequestCompletions { first, second }
                    &&& request_texts(first) == system_user_texts(model@, BATCH_ANALYSIS_PROMPT@, a)
                    &&& request_texts(second) == system_user_texts(model@, BATCH_ANALYSIS_PROMPT@, b)
                },
            },
            AnalysisEvent::BatchAnalyses(Err(e)) => fails_with(next, e),
            AnalysisEvent::BatchAnalyses(Ok((r1, r2))) => match (
                completion_text(r1),
                completion_text(r2),
            ) {
                (Some(t1), Some(t2)) => {
                    &&& next.0 == AnalysisState::AwaitingFinalAnalysis
                    &&& next.1 matches AnalysisAction::RequestCompletion { request }
                    &&& request_texts(request) == system_user_texts(
                        model@,
                        FINAL_ANALYSIS_PROMPT@,
                        combined_analyses(t1, t2),
                    )
                },
                _ => fails_invalid(next, missing_content()),
            },
            AnalysisEvent::FinalAnalysis(Err(e)) => fails_with(next, e),
            AnalysisEvent::FinalAnalysis(Ok(r)) => match completion_text(r) {
                Some(t) => {
                    &&& next.0 == AnalysisState::Finished
                    &&& next.1 matches AnalysisAction::Finish(Ok(s))
                    &&& s@ == t
                },
                None => fails_invalid(next, missing_content()),
            },
        },
{
    match event {
        AnalysisEvent::Articles(Err(e)) => (AnalysisState::Finished, AnalysisAction::Finish(Err(e))),
        AnalysisEvent::Articles(Ok(articles)) => match split_article_batches(articles.as_str()) {
            Err(e) => (AnalysisState::Finished, AnalysisAction::Finish(Err(e))),
            Ok((a, b)) => {
                let first = completion_request(model, BATCH_ANALYSIS_PROMPT, a.as_str());
                let second = completion_request(model, BATCH_ANALYSIS_PROMPT, b.as_str());
                (
                    AnalysisState::AwaitingBatchAnalyses,
                    AnalysisAction::RequestCompletions { first, second },
                )
            },
        },
        AnalysisEvent::BatchAnalyses(Err(e)) => (
            AnalysisState::Finished,
            AnalysisAction::Finish(Err(e)),
        ),
        AnalysisEvent::BatchAnalyses(Ok((r1, r2))) => {
            let t1 = match completion_content(&r1) {
                Ok(t) => t,
                Err(e) => {
                    return (AnalysisState::Finished, AnalysisAction::Finish(Err(e)));
                },
            };
            let t2 = match completion_content(&r2) {
                Ok(t) => t,
                Err(e) => {
                    return (AnalysisState::Finished, AnalysisAction::Finish(Err(e)));
                },
            };
            let combined = combine_analyses(t1.as_str(), t2.as_str());
            let request = completion_request(model, FINAL_ANALYSIS_PROMPT, combined.as_str());
            (AnalysisState::AwaitingFinalAnalysis, AnalysisAction::RequestCompletion { request })
        },
        AnalysisEvent::FinalAnalysis(Err(e)) => (
            AnalysisState::Finished,
            AnalysisAction::Finish(Err(e)),
        ),
        AnalysisEvent::FinalAnalysis(Ok(r)) => (
            AnalysisState::Finished,
            AnalysisAction::Finish(completion_content(&r)),
        ),
    }
}


/// The texts of a list of keywords.
pub open spec fn keyword_texts(keywords: Seq<String>) -> Seq<Seq<char>> {
    keywords.map_values(|k: String| k@)
}

/// The keywords of a chat request that count: each trimmed, the empty ones
/// left out.
pub open spec fn chat_keywords(keywords: Seq<String>) -> Seq<Seq<char>> {
    clean_pieces(keyword_texts(keywords))
}

/// The message for the analysis of a chat request's keywords: the keywords,
/// trimmed, without the empty ones, joined by a comma and a space; a bad
/// request when no keyword is left.
pub fn chat_message(keywords: &Vec<String>) -> (r: Result<String, AppError>)
    ensures
        chat_keywords(keywords@).len() == 0 ==> (r matches Err(AppError::BadRequest(m)) && m@
            == "keywords must contain at least one value"@),
        chat_keywords(keywords@).len() > 0 ==> (r matches Ok(s) && s@ == join_with(
            chat_keywords(keywords@),
            ", "@,
        )),
{
    let sep = chars_of(", ");
    let mut out: Vec<char> = Vec::new();
    let mut any = false;
    let mut i: usize = 0;
    while i < keywords.len()
        invariant
            i <= keywords@.len(),
            out@ == join_with(clean_pieces(keyword_texts(keywords@).take(i as int)), sep@),
            any == (clean_pieces(keyword_texts(keywords@).take(i as int)).len() > 0),
            sep@ == ", "@,
        decreases keywords@.len() - i,
    {
        let cs = chars_of(keywords[i].as_str());
        let ghost done = keyword_texts(keywords@).take(i as int);
        any = add_clean_piece(&mut out, any, cs.as_slice(), 0, cs.len(), sep.as_slice(), Ghost(done));
        assert(cs@.subrange(0, cs@.len() as int) =~= keywords@[i as int]@);
        assert(done.push(keywords@[i as int]@) =~= keyword_texts(keywords@).take(i + 1));
        i = i + 1;
    }
    assert(keyword_texts(keywords@).take(keywords@.len() as int) =~= keyword_texts(keywords@));
    if !any {
        return Err(AppError::BadRequest(String::from_str("keywords must contain at least one value")));
    }
    Ok(string_from(out.as_slice()))
}

} // verus!
