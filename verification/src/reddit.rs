//! What the Reddit search client reads out of Reddit's answers.

use vstd::prelude::*;
use crate::error::AppError;
use crate::json::{JsonValue, field, json_field, json_text, text};
use crate::news::or_empty;

verus! {

/// The texts of one Reddit post that a search found.
#[derive(Debug, Clone)]
pub struct RedditPostText {
    pub title: String,
    pub subreddit: String,
}

/// The access token of an OAuth answer: its `access_token` member.
pub open spec fn access_token_of(answer: JsonValue) -> Option<Seq<char>> {
    json_text(json_field(answer, "access_token"@))
}

/// The access token of Reddit's OAuth answer; an invalid-upstream error when
/// it has none.
pub fn reddit_access_token(answer: &JsonValue) -> (r: Result<String, AppError>)
    ensures
        match access_token_of(*answer) {
            Some(t) => r matches Ok(s) && s@ == t,
            None => r matches Err(AppError::InvalidUpstream(m)) && m@
                == "missing Reddit access token"@,
        },
{
    match text(field(answer, "access_token")) {
        Some(t) => Ok(t),
        None => Err(AppError::InvalidUpstream(String::from_str("missing Reddit access token"))),
    }
}

/// The result entries of a Reddit search answer: `data.children`, when it is
/// an array.
pub open spec fn search_children(answer: JsonValue) -> Option<Seq<JsonValue>> {
    match json_field(json_field(answer, "data"@), "children"@) {
        JsonValue::Array(items) => Some(items@),
        _ => None,
    }
}

/// The title and subreddit of a search result entry: `data.title`, and
/// `data.subreddit_name_prefixed` or else `data.subreddit`; the empty text
/// where a member is missing or not a string.
pub open spec fn post_texts_of(entry: JsonValue) -> (Seq<char>, Seq<char>) {
    let data = json_field(entry, "data"@);
    (
        or_empty(json_text(json_field(data, "title"@))),
        match json_text(json_field(data, "subreddit_name_prefixed"@)) {
            Some(t) => t,
            None => or_empty(json_text(json_field(data, "subreddit"@))),
        },
    )
}

/// The texts of the first `limit` posts of a Reddit search answer; an
/// invalid-upstream error when the answer has no result list.
pub fn reddit_post_texts(answer: &JsonValue, limit: u64) -> (r: Result<Vec<RedditPostText>, AppError>)
    ensures
        match search_children(*answer) {
            Some(items) => r matches Ok(posts) && posts@.len() == (if items.len() <= limit {
                items.len()
            } else {
                limit as nat
            }) && forall|i: int|
                0 <= i < posts@.len() ==> (#[trigger] posts@[i].title@, posts@[i].subreddit@)
                    == post_texts_of(items[i]),
            None => r matches Err(AppError::InvalidUpstream(m)) && m@
                == "missing Reddit search results"@,
        },
{
    let items = match field(field(answer, "data"), "children") {
        JsonValue::Array(items) => items,
        _ => {
            return Err(AppError::InvalidUpstream(String::from_str("missing Reddit search results")));
        },
    };
    let mut posts: Vec<RedditPostText> = Vec::new();
    let mut i: usize = 0;
    while i < items.len() && (i as u64) < limit
        invariant
            i <= items@.len(),
            i <= limit,
            search_children(*answer) == Some(items@),
            posts@.len() == i,
            forall|j: int|
                0 <= j < i ==> (#[trigger] posts@[j].title@, posts@[j].subreddit@) == post_texts_of(
                    items@[j],
                ),
        decreases items@.len() - i,
    {
        let data = field(&items[i], "data");
        let title = match text(field(data, "title")) {
            Some(t) => t,
            None => String::new(),
        };
        let subreddit = match text(field(data, "subreddit_name_prefixed")) {
            Some(t) => t,
            None => match text(field(data, "subreddit")) {
                Some(t) => t,
                None => String::new(),
            },
        };
        posts.push(RedditPostText { title, subreddit });
        i = i + 1;
    }
    Ok(posts)
}

} // verus!
