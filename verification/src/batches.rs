//! Splitting the articles that a search found into the two batches that are
//! analysed side by side.

use vstd::prelude::*;
use crate::error::AppError;

verus! {

/// `serde_json::Value`, one JSON value of any kind.
#[verifier::external_type_specification]
#[verifier::external_body]
pub struct ExJsonValue(serde_json::Value);

/// `serde_json::Error`, a failure to read or write JSON.
#[verifier::external_type_specification]
#[verifier::external_body]
pub struct ExJsonError(serde_json::Error);

/// What `serde_json::from_str::<Vec<Value>>` gives for a text: the items of
/// the JSON array that the text holds, or the error that it reports.
pub uninterp spec fn parsed_json_array(text: Seq<char>) -> Result<
    Seq<serde_json::Value>,
    serde_json::Error,
>;

/// What `serde_json::to_string` gives for a slice of JSON values: the compact
/// text of the JSON array of those values, or the error that it reports.
pub uninterp spec fn json_array_text(items: Seq<serde_json::Value>) -> Result<
    Seq<char>,
    serde_json::Error,
>;

/// What `<serde_json::Error as Display>::fmt` writes for an error.
pub uninterp spec fn json_error_display(e: serde_json::Error) -> Seq<char>;

/// Reads a JSON array of values from a text (`serde_json::from_str`). With
/// the `float_roundtrip` feature, writing any run of the items read gives a
/// text that reads back to that run: strings, integers and floats are
/// written so that they read back identically, object keys are strings, and
/// the run is nested no deeper than the text read.
#[verifier::external_body]
fn parse_json_array(text: &str) -> (r: Result<Vec<serde_json::Value>, serde_json::Error>)
    ensures
        match r {
            Ok(items) => parsed_json_array(text@) == Ok::<
                Seq<serde_json::Value>,
                serde_json::Error,
            >(items@),
            Err(e) => parsed_json_array(text@) == Err::<Seq<serde_json::Value>, serde_json::Error>(
                e,
            ),
        },
        r matches Ok(items) ==> forall|i: int, j: int|
            #![trigger json_array_text(items@.subrange(i, j))]
            0 <= i <= j <= items@.len() ==> (json_array_text(items@.subrange(i, j)) matches Ok(t)
                && parsed_json_array(t) matches Ok(back) && back == items@.subrange(i, j)),
{
    serde_json::from_str(text)
}

/// Writes JSON values as the text of a JSON array (`serde_json::to_string`).
/// Writing JSON values into memory never fails: their object keys are
/// strings and their numbers finite.
#[verifier::external_body]
fn write_json_array(items: &[serde_json::Value]) -> (r: Result<String, serde_json::Error>)
    ensures
        r is Ok,
        match r {
            Ok(t) => json_array_text(items@) matches Ok(w) && w == t@,
            Err(_) => false,
        },
{
    serde_json::to_string(items)
}

/// Renders a JSON error as text (`serde_json::Error`'s `Display`).
#[verifier::external_body]
fn json_error_text(e: &serde_json::Error) -> (t: String)
    ensures
        t@ == json_error_display(*e),
{
    e.to_string()
}

/// At most this many articles are analysed.
pub const MAX_ANALYZED_ARTICLES: usize = 20;

/// The articles that are analysed: the first twenty.
pub open spec fn kept_articles<T>(items: Seq<T>) -> Seq<T> {
    if items.len() <= MAX_ANALYZED_ARTICLES {
        items
    } else {
        items.take(MAX_ANALYZED_ARTICLES as int)
    }
}

/// The two batches: the kept articles cut in two, the first half taking the
/// middle one when their number is odd.
pub open spec fn batch_halves<T>(items: Seq<T>) -> (Seq<T>, Seq<T>) {
    let kept = kept_articles(items);
    let k = (kept.len() + 1) / 2;
    (kept.take(k as int), kept.skip(k as int))
}

/// The text of a list of JSON values written as an array.
pub open spec fn written(items: Seq<serde_json::Value>) -> Seq<char> {
    match json_array_text(items) {
        Ok(t) => t,
        Err(_) => Seq::<char>::empty(),
    }
}

/// The outcome of splitting a JSON text of articles: the texts of the two
/// batches, or the text of the error when the text is not a JSON array.
pub open spec fn article_batches(text: Seq<char>) -> Result<(Seq<char>, Seq<char>), Seq<char>> {
    match parsed_json_array(text) {
        Err(e) => Err("failed to parse news articles: "@ + json_error_display(e)),
        Ok(items) => Ok((written(batch_halves(items).0), written(batch_halves(items).1))),
    }
}

/// The error of an upstream answer that cannot be used, with its text.
pub(crate) fn invalid_upstream(prefix: &str, e: &serde_json::Error) -> (r: AppError)
    ensures
        r matches AppError::InvalidUpstream(m) && m@ == prefix@ + json_error_display(*e),
{
    let mut m = String::from_str(prefix);
    m.append(json_error_text(e).as_str());
    AppError::InvalidUpstream(m)
}

/// The two batches of a list of articles: the first twenty cut in two, the
/// first half taking the middle one when their number is odd.
pub fn split_items<T>(items: Vec<T>) -> (r: (Vec<T>, Vec<T>))
    ensures
        (r.0@, r.1@) == batch_halves(items@),
{
    let ghost all = items@;
    let mut first = items;
    first.truncate(MAX_ANALYZED_ARTICLES);
    assert(first@ =~= kept_articles(all));
    let k = (first.len() + 1) / 2;
    let second = first.split_off(k);
    assert(first@ =~= batch_halves(all).0);
    assert(second@ =~= batch_halves(all).1);
    (first, second)
}

/// Splits the JSON array of articles that a search returned into two batches
/// of at most ten articles each, keeping only the first twenty articles. It
/// fails only when the text is not a JSON array; the two batch texts read
/// back to the two halves of the articles.
pub fn split_article_batches(articles: &str) -> (r: Result<(String, String), AppError>)
    ensures
        match article_batches(articles@) {
            Ok((a, b)) => r matches Ok((x, y)) && x@ == a && y@ == b,
            Err(m) => r matches Err(AppError::InvalidUpstream(n)) && n@ == m,
        },
        match parsed_json_array(articles@) {
            Ok(items) => {
                &&& r matches Ok((x, y))
                &&& parsed_json_array(x@) matches Ok(p) && p == batch_halves(items).0
                &&& parsed_json_array(y@) matches Ok(q) && q == batch_halves(items).1
            },
            Err(_) => r is Err,
        },
{
    let items = match parse_json_array(articles) {
        Ok(items) => items,
        Err(e) => {
            return Err(invalid_upstream("failed to parse news articles: ", &e));
        },
    };
    let ghost all = items@;
    let (a, b) = split_items(items);
    let ghost m = kept_articles(all).len() as int;
    let ghost k = (m + 1) / 2;
    assert(a@ =~= all.subrange(0, k));
    assert(b@ =~= all.subrange(k, m));
    assert(json_array_text(all.subrange(0, k)) matches Ok(_));
    assert(json_array_text(all.subrange(k, m)) matches Ok(_));
    let first = match write_json_array(a.as_slice()) {
        Ok(t) => t,
        Err(e) => {
            return Err(invalid_upstream("failed to serialize first article batch: ", &e));
        },
    };
    let second = match write_json_array(b.as_slice()) {
        Ok(t) => t,
        Err(e) => {
            return Err(invalid_upstream("failed to serialize second article batch: ", &e));
        },
    };
    Ok((first, second))
}

/// The two batches hold exactly the kept articles, in order; the first has
/// as many articles as the second or one more; neither has more than ten.
pub proof fn batches_partition_kept_articles<T>(items: Seq<T>)
    ensures
        batch_halves(items).0 + batch_halves(items).1 == kept_articles(items),
        kept_articles(items).len() == if items.len() <= 20 { items.len() } else { 20 },
        batch_halves(items).0.len() == batch_halves(items).1.len() || batch_halves(items).0.len()
            == batch_halves(items).1.len() + 1,
        batch_halves(items).0.len() <= 10,
        batch_halves(items).1.len() <= 10,
{
    let kept = kept_articles(items);
    let k = (kept.len() + 1) / 2;
    assert(kept.take(k as int) + kept.skip(k as int) =~= kept);
}

} // verus!
