//! Properties that hold across the library's functions.

use vstd::prelude::*;
use crate::agent::{DEFAULT_TOOL_SEARCH_LIMIT, parsed_json, tool_search_args, value_member, value_text, value_u64};
use crate::analysis::{chat_keywords, keyword_texts};
use crate::json::{JsonMember, JsonValue, completion_text, json_at, json_field, json_get, json_text, member_value};
use crate::reddit::post_texts_of;
use crate::news::{article_from_item, between_tags, feed_articles, find_from, item_spans, lemma_find_from, matches_at, or_empty, title_tags, item_open, item_close, source_tags, pub_date_tags, after_last};
use crate::text::{
    clean_pieces, endpoint_url_of, is_trimmed, is_white_space, join_with, lacks, lemma_clean_pieces,
    lemma_join_trimmed, lemma_split_append, lemma_split_pieces, lemma_split_single,
    lemma_trim_of_trimmed, lemma_trim_part, query_words, search_query, split_on, trim,
    trim_start,
};

verus! {

/// Trimming twice is trimming once.
pub proof fn trim_is_idempotent(s: Seq<char>)
    ensures
        trim(trim(s)) == trim(s),
{
    lemma_trim_part(s);
    lemma_trim_of_trimmed(trim(s));
}

/// The cleaned pieces of a single piece: its trimmed form, unless empty.
proof fn lemma_clean_single(p: Seq<char>)
    ensures
        clean_pieces(seq![p]) == if trim(p).len() > 0 {
            seq![trim(p)]
        } else {
            Seq::<Seq<char>>::empty()
        },
{
    let ps = seq![p];
    assert(ps.drop_last() =~= Seq::<Seq<char>>::empty());
    assert(ps.last() == p);
    assert(clean_pieces(Seq::<Seq<char>>::empty()) == Seq::<Seq<char>>::empty());
}

/// A search query is its own search query: building the query of a query
/// changes nothing.
pub proof fn search_query_is_idempotent(keywords: Seq<char>)
    ensures
        search_query(search_query(keywords)) == search_query(keywords),
{
    let ws = query_words(keywords);
    lemma_split_pieces(keywords, ',');
    lemma_clean_pieces(split_on(keywords, ','), ',');
    let sp = seq![' '];
    assert(lacks(sp, ','));
    lemma_join_trimmed(ws, sp, ',');
    let q = join_with(ws, sp);
    lemma_split_single(q, ',');
    lemma_trim_of_trimmed(q);
    lemma_clean_single(q);
    if q.len() == 0 {
        assert(q =~= Seq::<char>::empty());
    }
}

/// A search query has no whitespace at either end and no comma, and it is
/// empty only when the keyword list has no word.
pub proof fn search_query_shape(keywords: Seq<char>)
    ensures
        is_trimmed(search_query(keywords)),
        lacks(search_query(keywords), ','),
        (search_query(keywords).len() == 0) == (query_words(keywords).len() == 0),
{
    lemma_split_pieces(keywords, ',');
    lemma_clean_pieces(split_on(keywords, ','), ',');
    let sp = seq![' '];
    assert(lacks(sp, ','));
    lemma_join_trimmed(query_words(keywords), sp, ',');
}

/// Words that are not empty, have no whitespace at either end and no comma
/// come back unchanged when they are joined with a comma and a space and
/// then read as a keyword list.
pub proof fn lemma_comma_join_words(ws: Seq<Seq<char>>)
    requires
        forall|i: int|
            0 <= i < ws.len() ==> (#[trigger] ws[i]).len() > 0 && is_trimmed(ws[i]) && lacks(
                ws[i],
                ',',
            ),
    ensures
        query_words(join_with(ws, seq![',', ' '])) == ws,
    decreases ws.len(),
{
    let sep = seq![',', ' '];
    if ws.len() == 0 {
        lemma_clean_single(Seq::<char>::empty());
        assert(ws =~= Seq::<Seq<char>>::empty());
    } else if ws.len() == 1 {
        let w = ws[0];
        lemma_split_single(w, ',');
        lemma_trim_of_trimmed(w);
        lemma_clean_single(w);
        assert(ws =~= seq![w]);
    } else {
        let rest = ws.drop_last();
        assert forall|i: int| 0 <= i < rest.len() implies (#[trigger] rest[i]).len() > 0
            && is_trimmed(rest[i]) && lacks(rest[i], ',') by {
            assert(rest[i] == ws[i]);
        }
        lemma_comma_join_words(rest);
        let w = ws.last();
        assert(ws[ws.len() - 1] == w);
        let j = join_with(rest, sep);
        let q = seq![' '] + w;
        assert(lacks(q, ',')) by {
            assert forall|k: int| 0 <= k < q.len() implies q[k] != ',' by {
                if k > 0 {
                    assert(q[k] == w[k - 1]);
                }
            }
        }
        assert(join_with(ws, sep) =~= j + seq![','] + q);
        lemma_split_append(j, q, ',');
        let pieces = split_on(j, ',').push(q);
        assert(pieces.drop_last() =~= split_on(j, ','));
        assert(q.drop_first() =~= w);
        assert(trim_start(q) == trim_start(w));
        lemma_trim_of_trimmed(w);
        assert(trim(q) == w);
        assert(clean_pieces(pieces) == rest.push(w));
        assert(rest.push(w) =~= ws);
    }
}

/// The message of a chat request, read again as a keyword list, gives the
/// search query of the request's keywords: the same keywords, joined by
/// spaces. This holds when no keyword holds a comma.
pub proof fn chat_message_search_query(keywords: Seq<String>)
    requires
        forall|i: int| 0 <= i < keywords.len() ==> lacks(#[trigger] keywords[i]@, ','),
    ensures
        search_query(join_with(chat_keywords(keywords), ", "@)) == join_with(
            chat_keywords(keywords),
            seq![' '],
        ),
{
    reveal_strlit(", ");
    assert(", "@ =~= seq![',', ' ']);
    let kts = keyword_texts(keywords);
    assert forall|j: int| 0 <= j < kts.len() implies lacks(#[trigger] kts[j], ',') by {
        assert(kts[j] == keywords[j]@);
    }
    lemma_clean_pieces(kts, ',');
    lemma_comma_join_words(chat_keywords(keywords));
}

/// Trailing slashes of a base address do not change an endpoint's address.
pub proof fn endpoint_ignores_trailing_slash(base: Seq<char>, path: Seq<char>)
    ensures
        endpoint_url_of(base + seq!['/'], path) == endpoint_url_of(base, path),
{
    let b = base + seq!['/'];
    assert(b.drop_last() =~= base);
}

/// The text found between two tags has no whitespace at either end.
pub proof fn tag_text_is_trimmed(text: Seq<char>, start_tag: Seq<char>, end_tag: Seq<char>)
    ensures
        between_tags(text, start_tag, end_tag) matches Some(t) ==> is_trimmed(t),
{
    match between_tags(text, start_tag, end_tag) {
        Some(t) => {
            let i = crate::news::find_from(text, start_tag, 0)->0;
            let from = i + start_tag.len();
            let j = crate::news::find_from(text, end_tag, from)->0;
            lemma_trim_part(text.subrange(from, j));
        },
        None => {},
    }
}

/// The title, source name and date of every article read from a feed have
/// no whitespace at either end.
pub proof fn feed_article_texts_are_trimmed(rss: Seq<char>, limit: nat)
    ensures
        forall|i: int|
            0 <= i < feed_articles(rss, limit).len() ==> is_trimmed(
                (#[trigger] feed_articles(rss, limit)[i]).0,
            ) && is_trimmed(feed_articles(rss, limit)[i].1) && is_trimmed(
                feed_articles(rss, limit)[i].2,
            ),
{
    assert forall|i: int| 0 <= i < feed_articles(rss, limit).len() implies is_trimmed(
        (#[trigger] feed_articles(rss, limit)[i]).0,
    ) && is_trimmed(feed_articles(rss, limit)[i].1) && is_trimmed(
        feed_articles(rss, limit)[i].2,
    ) by {
        let sp = item_spans(rss, 0)[i];
        let item = rss.subrange(sp.0, sp.1);
        item_texts_are_trimmed(item);
    }
}

/// The texts read from one feed item have no whitespace at either end.
pub proof fn item_texts_are_trimmed(item: Seq<char>)
    ensures
        is_trimmed(article_from_item(item).0),
        is_trimmed(article_from_item(item).1),
        is_trimmed(article_from_item(item).2),
{
    let (t0, t1) = crate::news::title_tags();
    let (s0, s1) = crate::news::source_tags();
    let (d0, d1) = crate::news::pub_date_tags();
    tag_text_is_trimmed(item, t0, t1);
    tag_text_is_trimmed(item, d0, d1);
    match between_tags(item, s0, s1) {
        Some(block) => {
            lemma_trim_part(crate::news::after_last(block, '>'));
        },
        None => {},
    }
}


/// The model's answer is the whole text of the first choice's message
/// content: when the answer is `{"choices": [{"message": {"content": s}}]}`
/// (each member first in its object), the completion text is exactly `s`,
/// unchanged, whatever other members or choices follow.
pub proof fn completion_text_is_whole_content(answer: JsonValue, s: String)
    requires
        ({
            &&& answer matches JsonValue::Object(top)
            &&& top@.len() > 0
            &&& top@[0].key@ == "choices"@
            &&& top@[0].value matches JsonValue::Array(choices)
            &&& choices@.len() > 0
            &&& choices@[0] matches JsonValue::Object(choice)
            &&& choice@.len() > 0
            &&& choice@[0].key@ == "message"@
            &&& choice@[0].value matches JsonValue::Object(message)
            &&& message@.len() > 0
            &&& message@[0].key@ == "content"@
            &&& message@[0].value == JsonValue::Str(s)
        }),
    ensures
        completion_text(answer) == Some(s@),
{
}

/// The model's answer is missing exactly when `choices[0].message.content`
/// is not a string: when the content member holds a string, some text is
/// read, and it has the string's length.
pub proof fn completion_text_keeps_length(answer: JsonValue, s: String)
    requires
        json_field(answer, "choices"@) matches JsonValue::Array(choices) && choices@.len() > 0
            && json_field(json_field(choices@[0], "message"@), "content"@) == JsonValue::Str(s),
    ensures
        completion_text(answer) is Some,
        completion_text(answer)->0.len() == s@.len(),
        completion_text(answer)->0 == s@,
{
    assert(crate::json::json_get(answer, "choices"@) is Some);
}

/// The news search that the model asks for takes the keyword and the limit
/// that the tool call's arguments give: a limit that is a `u64` number is
/// used as it is, whatever its size.
pub proof fn tool_limit_is_taken_as_given(message: JsonValue, call: JsonValue, args: Seq<char>, v: serde_json::Value, kv: serde_json::Value, k: Seq<char>, lv: serde_json::Value, n: u64)
    requires
        json_field(message, "tool_calls"@) matches JsonValue::Array(calls) && calls@.len() > 0
            && calls@[0] == call,
        json_text(json_field(json_field(call, "function"@), "arguments"@)) == Some(args),
        parsed_json(args) matches Ok(x) && x == v,
        value_member(v, "keyword"@) == Some(kv),
        value_text(kv) == Some(k),
        value_member(v, "limit"@) == Some(lv),
        value_u64(lv) == Some(n),
    ensures
        tool_search_args(message) matches Ok(Some((kw, lim))) && kw == k && lim == n,
{
}

/// Without a `limit` in the tool call's arguments, the search asks for the
/// default number of articles.
pub proof fn tool_limit_defaults_when_absent(message: JsonValue, call: JsonValue, args: Seq<char>, v: serde_json::Value, kv: serde_json::Value, k: Seq<char>)
    requires
        json_field(message, "tool_calls"@) matches JsonValue::Array(calls) && calls@.len() > 0
            && calls@[0] == call,
        json_text(json_field(json_field(call, "function"@), "arguments"@)) == Some(args),
        parsed_json(args) matches Ok(x) && x == v,
        value_member(v, "keyword"@) == Some(kv),
        value_text(kv) == Some(k),
        value_member(v, "limit"@) is None,
    ensures
        tool_search_args(message) matches Ok(Some((kw, lim))) && kw == k && lim == 10,
        DEFAULT_TOOL_SEARCH_LIMIT == 10,
{
}

/// The cleaned pieces are the pieces, each trimmed, with the empty ones
/// filtered out.
pub proof fn clean_pieces_is_trim_then_filter(pieces: Seq<Seq<char>>)
    ensures
        clean_pieces(pieces) == pieces.map_values(|p: Seq<char>| trim(p)).filter(
            |t: Seq<char>| t.len() > 0,
        ),
    decreases pieces.len(),
{
    reveal_with_fuel(Seq::<_>::filter, 1);
    let f = |p: Seq<char>| trim(p);
    let keep = |t: Seq<char>| t.len() > 0;
    if pieces.len() > 0 {
        clean_pieces_is_trim_then_filter(pieces.drop_last());
        let m = pieces.map_values(f);
        assert(m.drop_last() =~= pieces.drop_last().map_values(f));
        assert(m.last() == trim(pieces.last()));
    } else {
        assert(pieces.map_values(f) =~= Seq::<Seq<char>>::empty());
    }
}

/// The keywords of a chat request that count are all its keywords, each
/// trimmed, in order, without those that are blank.
pub proof fn chat_keywords_are_all_nonblank_keywords(keywords: Seq<String>)
    ensures
        chat_keywords(keywords) == keyword_texts(keywords).map_values(|p: Seq<char>| trim(p)).filter(
            |t: Seq<char>| t.len() > 0,
        ),
{
    clean_pieces_is_trim_then_filter(keyword_texts(keywords));
}

/// When every keyword is already trimmed and not empty, every keyword
/// counts: the chat message holds all of them, in order.
pub proof fn chat_keeps_every_trimmed_keyword(keywords: Seq<String>)
    requires
        forall|i: int|
            0 <= i < keywords.len() ==> (#[trigger] keywords[i])@.len() > 0 && is_trimmed(
                keywords[i]@,
            ),
    ensures
        chat_keywords(keywords) == keyword_texts(keywords),
        chat_keywords(keywords).len() == keywords.len(),
    decreases keywords.len(),
{
    if keywords.len() > 0 {
        let rest = keywords.drop_last();
        assert forall|i: int| 0 <= i < rest.len() implies (#[trigger] rest[i])@.len() > 0
            && is_trimmed(rest[i]@) by {
            assert(rest[i] == keywords[i]);
        }
        chat_keeps_every_trimmed_keyword(rest);
        let kts = keyword_texts(keywords);
        assert(kts.drop_last() =~= keyword_texts(rest));
        let w = keywords[keywords.len() - 1]@;
        assert(kts.last() == w);
        lemma_trim_of_trimmed(w);
        assert(keyword_texts(rest).push(w) =~= kts);
    } else {
        assert(keyword_texts(keywords) =~= Seq::<Seq<char>>::empty());
    }
}

/// A feed gives as many articles as it has complete items, but no more than
/// the limit; the articles are those of its first items, in order.
pub proof fn feed_article_count(rss: Seq<char>, limit: nat)
    ensures
        feed_articles(rss, limit).len() == if item_spans(rss, 0).len() <= limit {
            item_spans(rss, 0).len()
        } else {
            limit
        },
        forall|i: int|
            0 <= i < feed_articles(rss, limit).len() ==> #[trigger] feed_articles(rss, limit)[i]
                == article_from_item(rss.subrange(item_spans(rss, 0)[i].0, item_spans(rss, 0)[i].1)),
{
}

/// Raising the limit only adds articles at the end: the articles read with a
/// smaller limit are the first ones read with a larger limit.
pub proof fn feed_articles_grow_with_limit(rss: Seq<char>, small: nat, large: nat)
    requires
        small <= large,
    ensures
        feed_articles(rss, small).len() <= feed_articles(rss, large).len(),
        feed_articles(rss, small) == feed_articles(rss, large).take(
            feed_articles(rss, small).len() as int,
        ),
        item_spans(rss, 0).len() >= large ==> feed_articles(rss, large).len() == large,
{
    feed_article_count(rss, small);
    feed_article_count(rss, large);
    assert(feed_articles(rss, small) =~= feed_articles(rss, large).take(
        feed_articles(rss, small).len() as int,
    ));
}

/// A Reddit post's title is exactly the text of its `data.title` member, and
/// empty when that is not a string; its subreddit is the text of
/// `data.subreddit_name_prefixed`, or else of `data.subreddit`.
pub proof fn reddit_post_texts_are_member_texts(entry: JsonValue)
    ensures
        json_field(json_field(entry, "data"@), "title"@) matches JsonValue::Str(t)
            ==> post_texts_of(entry).0 == t@,
        !(json_field(json_field(entry, "data"@), "title"@) is Str) ==> post_texts_of(entry).0.len()
            == 0,
        json_field(json_field(entry, "data"@), "subreddit_name_prefixed"@) matches JsonValue::Str(t)
            ==> post_texts_of(entry).1 == t@,
        !(json_field(json_field(entry, "data"@), "subreddit_name_prefixed"@) is Str) ==> (json_field(
            json_field(entry, "data"@),
            "subreddit"@,
        ) matches JsonValue::Str(t) ==> post_texts_of(entry).1 == t@),
{
}


/// Trimming removes whitespace at both ends and nothing else: the trimmed
/// text is a contiguous part of the text, every character before and after
/// it is whitespace, and it neither starts nor ends with whitespace.
pub proof fn trim_removes_only_surrounding_whitespace(s: Seq<char>)
    ensures
        exists|a: int, b: int|
            0 <= a <= b <= s.len() && trim(s) == s.subrange(a, b) && (forall|j: int|
                0 <= j < a ==> is_white_space(#[trigger] s[j])) && (forall|j: int|
                b <= j < s.len() ==> is_white_space(#[trigger] s[j])),
        is_trimmed(trim(s)),
{
    let (a, b) = lemma_trim_part(s);
    assert(0 <= a <= b <= s.len() && trim(s) == s.subrange(a, b));
}

/// Looking up a key in the members of an object finds the first member with
/// that key, and nothing when no member has it.
pub proof fn member_lookup_finds_first(members: Seq<JsonMember>, key: Seq<char>, i: int)
    requires
        0 <= i < members.len(),
        members[i].key@ == key,
        forall|j: int| 0 <= j < i ==> (#[trigger] members[j]).key@ != key,
    ensures
        member_value(members, key) == Some(members[i].value),
    decreases i,
{
    if i > 0 {
        let rest = members.drop_first();
        assert forall|j: int| 0 <= j < i - 1 implies (#[trigger] rest[j]).key@ != key by {
            assert(rest[j] == members[j + 1]);
        }
        assert(members[0].key@ != key);
        member_lookup_finds_first(rest, key, i - 1);
    }
}

/// No member with the key: the lookup finds nothing.
pub proof fn member_lookup_misses_absent(members: Seq<JsonMember>, key: Seq<char>)
    requires
        forall|j: int| 0 <= j < members.len() ==> (#[trigger] members[j]).key@ != key,
    ensures
        member_value(members, key) is None,
    decreases members.len(),
{
    if members.len() > 0 {
        let rest = members.drop_first();
        assert forall|j: int| 0 <= j < rest.len() implies (#[trigger] rest[j]).key@ != key by {
            assert(rest[j] == members[j + 1]);
        }
        assert(members[0].key@ != key);
        member_lookup_misses_absent(rest, key);
    }
}

/// The member `key` of an object is the value of its first member with that
/// key; an array's element `i` is its `i`-th item; other values have
/// neither.
pub proof fn json_lookup_laws(v: JsonValue, key: Seq<char>, i: int)
    ensures
        v matches JsonValue::Object(ms) ==> (0 <= i < ms@.len() && ms@[i].key@ == key && (forall|j: int|
            0 <= j < i ==> (#[trigger] ms@[j]).key@ != key) ==> json_get(v, key) == Some(
            ms@[i].value,
        )),
        v matches JsonValue::Object(ms) ==> ((forall|j: int|
            0 <= j < ms@.len() ==> (#[trigger] ms@[j]).key@ != key) ==> json_get(v, key) is None),
        v matches JsonValue::Array(items) ==> (0 <= i < items@.len() ==> json_at(v, i) == Some(
            items@[i],
        )),
        !(v is Object) ==> json_get(v, key) is None,
        !(v is Array) ==> json_at(v, i) is None,
{
    match v {
        JsonValue::Object(ms) => {
            if 0 <= i < ms@.len() && ms@[i].key@ == key && (forall|j: int|
                0 <= j < i ==> (#[trigger] ms@[j]).key@ != key) {
                member_lookup_finds_first(ms@, key, i);
            }
            if forall|j: int| 0 <= j < ms@.len() ==> (#[trigger] ms@[j]).key@ != key {
                member_lookup_misses_absent(ms@, key);
            }
        },
        _ => {},
    }
}

/// A pattern that begins with `<` is found first at the first place it
/// occurs when no `<` comes before that place.
proof fn lemma_found_at_first_angle(s: Seq<char>, pat: Seq<char>, from: int, k: int)
    requires
        pat.len() > 0,
        pat[0] == '<',
        0 <= from <= k,
        matches_at(s, pat, k),
        forall|j: int| from <= j < k ==> s[j] != '<',
    ensures
        find_from(s, pat, from) == Some(k),
{
    lemma_find_from(s, pat, from);
    match find_from(s, pat, from) {
        Some(k2) => {
            if k2 < k {
                assert(s.subrange(k2, k2 + pat.len())[0] == pat[0]);
                assert(s[k2] == '<');
            } else if k2 > k {
                assert(!matches_at(s, pat, k));
            }
        },
        None => {
            assert(!matches_at(s, pat, k));
        },
    }
}

/// The text between two tags that begin with `<`, when no `<` comes before
/// the first tag or inside the text, is that text, trimmed: nothing of it is
/// cut off and nothing else is added.
pub proof fn tag_text_is_text_between_tags(
    pre: Seq<char>,
    open: Seq<char>,
    t: Seq<char>,
    close: Seq<char>,
    post: Seq<char>,
)
    requires
        open.len() > 0,
        close.len() > 0,
        open[0] == '<',
        close[0] == '<',
        lacks(pre, '<'),
        lacks(t, '<'),
    ensures
        between_tags(pre + open + t + close + post, open, close) == Some(trim(t)),
{
    let s = pre + open + t + close + post;
    let a = pre.len() as int;
    let from = a + open.len();
    let c = from + t.len();
    assert(s.subrange(a, a + open.len()) =~= open);
    assert forall|j: int| 0 <= j < a implies s[j] != '<' by {
        assert(s[j] == pre[j]);
    }
    lemma_found_at_first_angle(s, open, 0, a);
    assert(s.subrange(c, c + close.len()) =~= close);
    assert forall|j: int| from <= j < c implies s[j] != '<' by {
        assert(s[j] == t[j - from]);
    }
    lemma_found_at_first_angle(s, close, from, c);
    assert(s.subrange(from, c) =~= t);
}

/// The title read from a feed item is the whole text between `<title>` and
/// `</title>`, trimmed, when no `<` comes before the title element or inside
/// the title.
pub proof fn item_title_is_whole_title_text(pre: Seq<char>, t: Seq<char>, post: Seq<char>)
    requires
        lacks(pre, '<'),
        lacks(t, '<'),
    ensures
        article_from_item(pre + title_tags().0 + t + title_tags().1 + post).0 == trim(t),
{
    tag_text_is_text_between_tags(pre, title_tags().0, t, title_tags().1, post);
}


/// Each item read from a feed is a whole `<item>...</item>` element: it
/// starts where `<item>` occurs, ends right after the first `</item>` that
/// follows, the items come in feed order without overlapping, and no
/// `<item>` is passed over before an item that is read.
pub proof fn item_spans_are_whole_items(s: Seq<char>, cursor: int)
    requires
        cursor >= 0,
    ensures
        forall|i: int|
            0 <= i < item_spans(s, cursor).len() ==> {
                let sp = #[trigger] item_spans(s, cursor)[i];
                &&& cursor <= sp.0
                &&& matches_at(s, item_open(), sp.0)
                &&& sp.0 < sp.1 <= s.len()
                &&& matches_at(s, item_close(), sp.1 - item_close().len())
                &&& sp.0 <= sp.1 - item_close().len()
                &&& forall|k: int|
                    sp.0 <= k < sp.1 - item_close().len() ==> !matches_at(s, item_close(), k)
            },
        forall|i: int|
            0 <= i < item_spans(s, cursor).len() - 1 ==> (#[trigger] item_spans(s, cursor)[i]).1
                <= item_spans(s, cursor)[i + 1].0,
        forall|i: int, j: int|
            #![trigger item_spans(s, cursor)[i], matches_at(s, item_open(), j)]
            0 <= i < item_spans(s, cursor).len() && (if i == 0 {
                cursor
            } else {
                item_spans(s, cursor)[i - 1].1
            }) <= j < item_spans(s, cursor)[i].0 ==> !matches_at(s, item_open(), j),
    decreases s.len() - cursor,
{
    let sp = item_spans(s, cursor);
    lemma_find_from(s, item_open(), cursor);
    match find_from(s, item_open(), cursor) {
        None => {},
        Some(start) => {
            lemma_find_from(s, item_close(), start);
            match find_from(s, item_close(), start) {
                None => {},
                Some(e) => {
                    let end = e + item_close().len();
                    if e == start {
                        assert(s.subrange(start, start + item_open().len())[1] == 'i');
                        assert(s.subrange(e, e + item_close().len())[1] == '/');
                    }
                    item_spans_are_whole_items(s, end);
                    let rest = item_spans(s, end);
                    assert(sp == seq![(start, end)] + rest);
                    assert forall|i: int| 1 <= i < sp.len() implies #[trigger] sp[i] == rest[i - 1] by {}
                    assert forall|i: int| 0 <= i < sp.len() - 1 implies (#[trigger] sp[i]).1
                        <= sp[i + 1].0 by {
                        if i > 0 {
                            assert(sp[i] == rest[i - 1]);
                            assert(sp[i + 1] == rest[i]);
                        } else {
                            assert(sp[1] == rest[0]);
                        }
                    }
                    assert forall|i: int, j: int|
                        #![trigger sp[i], matches_at(s, item_open(), j)]
                        0 <= i < sp.len() && (if i == 0 {
                            cursor
                        } else {
                            sp[i - 1].1
                        }) <= j < sp[i].0 implies !matches_at(s, item_open(), j) by {
                        if i > 0 {
                            assert(sp[i] == rest[i - 1]);
                            if i > 1 {
                                assert(sp[i - 1] == rest[i - 2]);
                            }
                        }
                    }
                },
            }
        },
    }
}

/// The access token read from an OAuth answer is the whole text of its
/// `access_token` member.
pub proof fn access_token_is_member_text(answer: JsonValue, t: String)
    requires
        json_field(answer, "access_token"@) == JsonValue::Str(t),
    ensures
        crate::reddit::access_token_of(answer) == Some(t@),
{
}


/// The publication date read from a feed item is the whole text between
/// `<pubDate>` and `</pubDate>`, trimmed, when no `<` comes before that
/// element or inside the date.
pub proof fn item_date_is_whole_date_text(pre: Seq<char>, d: Seq<char>, post: Seq<char>)
    requires
        lacks(pre, '<'),
        lacks(d, '<'),
    ensures
        article_from_item(pre + pub_date_tags().0 + d + pub_date_tags().1 + post).2 == trim(d),
{
    tag_text_is_text_between_tags(pre, pub_date_tags().0, d, pub_date_tags().1, post);
}

/// What follows the last `>` of `x`, `>`, `y` is `y`, when `y` has no `>`.
proof fn lemma_after_last_gt(x: Seq<char>, y: Seq<char>)
    requires
        lacks(y, '>'),
    ensures
        after_last(x + seq!['>'] + y, '>') == y,
    decreases y.len(),
{
    let s = x + seq!['>'] + y;
    if y.len() == 0 {
        assert(s.last() == '>');
        assert(y =~= Seq::<char>::empty());
    } else {
        assert(s.drop_last() =~= x + seq!['>'] + y.drop_last());
        lemma_after_last_gt(x, y.drop_last());
        assert(y.drop_last().push(y.last()) =~= y);
        assert(s.last() == y.last());
        assert(y[y.len() - 1] != '>');
    }
}

/// The source name read from a feed item is the whole text of the
/// `<source ...>` element after its opening tag, when no `<` comes before
/// that element, its attributes hold no `<` or `>`, and the name holds no
/// `<` or `>` and no whitespace at either end.
pub proof fn item_source_is_whole_source_name(
    pre: Seq<char>,
    attrs: Seq<char>,
    name: Seq<char>,
    post: Seq<char>,
)
    requires
        lacks(pre, '<'),
        lacks(attrs, '<'),
        lacks(attrs, '>'),
        lacks(name, '<'),
        lacks(name, '>'),
        name.len() > 0,
        is_trimmed(name),
    ensures
        article_from_item(
            pre + source_tags().0 + (attrs + seq!['>'] + name) + source_tags().1 + post,
        ).1 == name,
{
    let t = attrs + seq!['>'] + name;
    assert(lacks(t, '<')) by {
        assert forall|k: int| 0 <= k < t.len() implies t[k] != '<' by {
            if k < attrs.len() {
                assert(t[k] == attrs[k]);
            } else if k > attrs.len() {
                assert(t[k] == name[k - attrs.len() - 1]);
            }
        }
    }
    tag_text_is_text_between_tags(pre, source_tags().0, t, source_tags().1, post);
    let (a, b) = lemma_trim_part(t);
    let gt = attrs.len() as int;
    assert(t[gt] == '>');
    assert(t[t.len() - 1] == name[name.len() - 1]);
    if b < t.len() {
        assert(is_white_space(t[t.len() - 1]));
    }
    if a > gt {
        assert(is_white_space(t[gt]));
    }
    let block = t.subrange(a, b);
    let x = attrs.subrange(a, gt);
    assert(block =~= x + seq!['>'] + name);
    lemma_after_last_gt(x, name);
    lemma_trim_of_trimmed(name);
}


/// The final request's user content holds the first analysis, whole, right
/// after its label, and the second analysis, whole, at the end.
pub proof fn combined_analyses_keep_both_in_order(first: Seq<char>, second: Seq<char>)
    ensures
        ({
            let c = crate::analysis::combined_analyses(first, second);
            let l1 = "First news-search analysis:\n"@.len() as int;
            &&& c.take(l1) == "First news-search analysis:\n"@
            &&& c.subrange(l1, l1 + first.len()) == first
            &&& c.skip(c.len() - second.len()) == second
            &&& c.len() == first.len() + second.len() + "First news-search analysis:\n"@.len()
                + "\n\nSecond news-search analysis:\n"@.len()
        }),
{
    let c = crate::analysis::combined_analyses(first, second);
    let p1 = "First news-search analysis:\n"@;
    let p2 = "\n\nSecond news-search analysis:\n"@;
    let l1 = p1.len() as int;
    assert(c.take(l1) =~= p1);
    assert(c.subrange(l1, l1 + first.len()) =~= first);
    assert(c.skip(c.len() - second.len()) =~= second);
}

/// The value of an environment variable is the value of the first entry with
/// its name, and there is none when no entry has it.
pub proof fn env_lookup_finds_first(vars: Seq<(String, String)>, name: Seq<char>, i: int)
    ensures
        0 <= i < vars.len() && vars[i].0@ == name && (forall|j: int|
            0 <= j < i ==> (#[trigger] vars[j]).0@ != name) ==> crate::config::env_value(vars, name)
            == Some(vars[i].1@),
        (forall|j: int| 0 <= j < vars.len() ==> (#[trigger] vars[j]).0@ != name)
            ==> crate::config::env_value(vars, name) is None,
    decreases vars.len(),
{
    if vars.len() > 0 {
        let rest = vars.drop_first();
        env_lookup_finds_first(rest, name, i - 1);
        if 0 <= i < vars.len() && vars[i].0@ == name && (forall|j: int|
            0 <= j < i ==> (#[trigger] vars[j]).0@ != name) {
            if i > 0 {
                assert(vars[0].0@ != name);
                assert forall|j: int| 0 <= j < i - 1 implies (#[trigger] rest[j]).0@ != name by {
                    assert(rest[j] == vars[j + 1]);
                }
                assert(rest[i - 1] == vars[i]);
            }
        }
        if forall|j: int| 0 <= j < vars.len() ==> (#[trigger] vars[j]).0@ != name {
            assert(vars[0].0@ != name);
            assert forall|j: int| 0 <= j < rest.len() implies (#[trigger] rest[j]).0@ != name by {
                assert(rest[j] == vars[j + 1]);
            }
        }
    }
}

/// A required setting is the variable's value, unchanged, exactly when that
/// value holds something besides whitespace.
pub proof fn required_setting_is_value_unchanged(vars: Seq<(String, String)>, name: Seq<char>)
    ensures
        crate::config::required_value(vars, name) is Some <==> (crate::config::env_value(
            vars,
            name,
        ) matches Some(v) && exists|k: int| 0 <= k < v.len() && !is_white_space(#[trigger] v[k])),
        crate::config::required_value(vars, name) matches Some(v) ==> crate::config::env_value(
            vars,
            name,
        ) == Some(v),
{
    match crate::config::env_value(vars, name) {
        Some(v) => {
            let (a, b) = lemma_trim_part(v);
            if trim(v).len() > 0 {
                assert(!is_white_space(v[a]));
            } else {
                assert forall|k: int| 0 <= k < v.len() implies is_white_space(#[trigger] v[k]) by {
                    if k >= b {
                    } else {
                        assert(k < a);
                    }
                }
            }
        },
        None => {},
    }
}

} // verus!
