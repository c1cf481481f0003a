//! The request and response bodies exchanged by the services.

use vstd::prelude::*;

verus! {

/// Where the articles for an analysis are searched.
#[derive(Clone, Copy, Debug, PartialEq, Eq, Structural)]
pub enum SearchSource {
    News,
    Reddit,
}

impl Default for SearchSource {
    /// News search is the source when none is chosen.
    fn default() -> (s: SearchSource)
        ensures
            s == SearchSource::News,
    {
        SearchSource::News
    }
}

/// A chat request: the keywords to analyse and, optionally, where to search.
#[derive(Debug, Clone)]
pub struct AiChatRequest {
    pub keywords: Vec<String>,
    pub source: Option<SearchSource>,
}

/// The text the model produced for a chat request.
#[derive(Debug, Clone)]
pub struct AiChatResponse {
    pub response: String,
}

/// An analysis request: the keywords to analyse.
#[derive(Debug, Clone)]
pub struct AnalyzeRequest {
    pub keywords: Vec<String>,
}

/// One news article found by a search, as the analysis model receives it.
#[derive(Debug, Clone)]
pub struct NewsArticle {
    pub title: String,
    pub source: String,
    pub pub_date: String,
}

/// The three texts of an article.
pub open spec fn article_texts(a: NewsArticle) -> (Seq<char>, Seq<char>, Seq<char>) {
    (a.title@, a.source@, a.pub_date@)
}

} // verus!
