use trend_analyzes::error::AppError;
use trend_analyzes::json::{at, completion_content, field, get, text, JsonMember, JsonValue};
use trend_analyzes::reddit::{reddit_access_token, reddit_post_texts};

fn s(t: &str) -> JsonValue {
    JsonValue::Str(t.to_owned())
}

fn obj(members: Vec<(&str, JsonValue)>) -> JsonValue {
    JsonValue::Object(
        members
            .into_iter()
            .map(|(k, v)| JsonMember { key: k.to_owned(), value: v })
            .collect(),
    )
}

fn answer(content: JsonValue) -> JsonValue {
    obj(vec![(
        "choices",
        JsonValue::Array(vec![obj(vec![("message", obj(vec![("role", s("assistant")), ("content", content)]))])]),
    )])
}

#[test]
fn get_finds_member() {
    let v = obj(vec![("a", s("x")), ("b", JsonValue::Bool(true))]);
    assert!(matches!(get(&v, "b"), Some(JsonValue::Bool(true))));
    assert!(get(&v, "c").is_none());
    assert!(get(&s("a"), "a").is_none());
}

#[test]
fn field_defaults_to_null() {
    let v = obj(vec![("a", s("x"))]);
    assert!(matches!(field(&v, "z"), JsonValue::Null));
    assert_eq!(text(field(&v, "a")), Some("x".to_owned()));
}

#[test]
fn at_reads_array() {
    let v = JsonValue::Array(vec![s("p"), s("q")]);
    assert_eq!(text(at(&v, 1).unwrap()), Some("q".to_owned()));
    assert!(at(&v, 2).is_none());
    assert!(at(&s("p"), 0).is_none());
}

#[test]
fn completion_content_reads_first_choice() {
    assert_eq!(completion_content(&answer(s("Main topics: x"))).unwrap(), "Main topics: x");
}

#[test]
fn completion_content_missing_is_invalid_upstream() {
    for bad in [
        JsonValue::Null,
        obj(vec![("choices", JsonValue::Array(vec![]))]),
        answer(JsonValue::Number("3".to_owned())),
        obj(vec![("choices", s("x"))]),
    ] {
        match completion_content(&bad) {
            Err(AppError::InvalidUpstream(m)) => assert_eq!(m, "missing choices[0].message.content"),
            other => panic!("unexpected {other:?}"),
        }
    }
}

#[test]
fn access_token_is_read() {
    let v = obj(vec![("token_type", s("bearer")), ("access_token", s("tok123"))]);
    assert_eq!(reddit_access_token(&v).unwrap(), "tok123");
}

#[test]
fn access_token_missing() {
    match reddit_access_token(&obj(vec![("access_token", JsonValue::Null)])) {
        Err(AppError::InvalidUpstream(m)) => assert_eq!(m, "missing Reddit access token"),
        other => panic!("unexpected {other:?}"),
    }
}

fn child(data: Vec<(&str, JsonValue)>) -> JsonValue {
    obj(vec![("kind", s("t3")), ("data", obj(data))])
}

#[test]
fn reddit_posts_are_read_with_fallbacks() {
    let v = obj(vec![(
        "data",
        obj(vec![(
            "children",
            JsonValue::Array(vec![
                child(vec![("title", s("A")), ("subreddit_name_prefixed", s("r/rust")), ("subreddit", s("rust"))]),
                child(vec![("title", s("B")), ("subreddit", s("news"))]),
                child(vec![("created_utc", JsonValue::Number("1.5".to_owned()))]),
                child(vec![("title", s("D"))]),
            ]),
        )]),
    )]);
    let posts = reddit_post_texts(&v, 3).unwrap();
    assert_eq!(posts.len(), 3);
    assert_eq!((posts[0].title.as_str(), posts[0].subreddit.as_str()), ("A", "r/rust"));
    assert_eq!((posts[1].title.as_str(), posts[1].subreddit.as_str()), ("B", "news"));
    assert_eq!((posts[2].title.as_str(), posts[2].subreddit.as_str()), ("", ""));
}

#[test]
fn reddit_posts_missing_results() {
    match reddit_post_texts(&obj(vec![("data", obj(vec![]))]), 5) {
        Err(AppError::InvalidUpstream(m)) => assert_eq!(m, "missing Reddit search results"),
        other => panic!("unexpected {other:?}"),
    }
}
