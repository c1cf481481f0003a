//! Reading the articles of a news RSS feed.

use vstd::prelude::*;
use crate::model::{NewsArticle, article_texts};
use crate::text::{chars_of, string_from, trim, trim_bounds};

verus! {

/// `pat` occurs in `s` at index `k`.
pub open spec fn matches_at(s: Seq<char>, pat: Seq<char>, k: int) -> bool {
    &&& 0 <= k
    &&& k + pat.len() <= s.len()
    &&& s.subrange(k, k + pat.len()) == pat
}

/// The first index at or after `from` where `pat` occurs in `s`, as
/// `str::find` reports it on `s[from..]` (shifted by `from`).
pub open spec fn find_from(s: Seq<char>, pat: Seq<char>, from: int) -> Option<int>
    decreases s.len() - from,
{
    if from < 0 || from + pat.len() > s.len() {
        None
    } else if matches_at(s, pat, from) {
        Some(from)
    } else {
        proof {
            if pat.len() == 0 {
                assert(s.subrange(from, from) =~= pat);
            }
        }
        find_from(s, pat, from + 1)
    }
}

/// A found occurrence lies at or after the starting point, inside the text,
/// and is the first one there; when none is found, there is none.
pub proof fn lemma_find_from(s: Seq<char>, pat: Seq<char>, from: int)
    requires
        0 <= from,
    ensures
        match find_from(s, pat, from) {
            Some(k) => {
                &&& from <= k
                &&& k + pat.len() <= s.len()
                &&& matches_at(s, pat, k)
                &&& forall|j: int| from <= j < k ==> !#[trigger] matches_at(s, pat, j)
            },
            None => forall|j: int| from <= j ==> !#[trigger] matches_at(s, pat, j),
        },
    decreases s.len() - from,
{
    if from + pat.len() > s.len() {
    } else if matches_at(s, pat, from) {
    } else {
        if pat.len() == 0 {
            assert(s.subrange(from, from) =~= pat);
        }
        lemma_find_from(s, pat, from + 1);
    }
}

/// Whether `pat` occurs in `cs` at index `k`.
fn matches_here(cs: &[char], pat: &[char], k: usize) -> (b: bool)
    requires
        k + pat.len() <= cs.len(),
    ensures
        b == matches_at(cs@, pat@, k as int),
{
    let mut j: usize = 0;
    while j < pat.len()
        invariant
            j <= pat@.len(),
            k + pat.len() <= cs.len(),
            forall|t: int| 0 <= t < j ==> cs@[k + t] == pat@[t],
        decreases pat@.len() - j,
    {
        if cs[k + j] != pat[j] {
            assert(cs@.subrange(k as int, k + pat@.len())[j as int] != pat@[j as int]);
            return false;
        }
        j = j + 1;
    }
    assert(cs@.subrange(k as int, k + pat@.len()) =~= pat@);
    true
}

/// The first index at or after `from` where `pat` occurs in `cs`.
pub fn find_in(cs: &[char], pat: &[char], from: usize) -> (r: Option<usize>)
    ensures
        match find_from(cs@, pat@, from as int) {
            Some(k) => r matches Some(x) && x == k && x + pat.len() <= cs.len(),
            None => r is None,
        },
{
    let mut k = from;
    while k <= cs.len() && pat.len() <= cs.len() - k
        invariant
            from <= k,
            find_from(cs@, pat@, from as int) == find_from(cs@, pat@, k as int),
        decreases cs@.len() + 1 - k,
    {
        if matches_here(cs, pat, k) {
            return Some(k);
        }
        proof {
            if pat@.len() == 0 {
                assert(cs@.subrange(k as int, k as int) =~= pat@);
            }
        }
        k = k + 1;
    }
    None
}

/// The trimmed text between the first `start_tag` and the first `end_tag`
/// after it, when both occur.
pub open spec fn between_tags(text: Seq<char>, start_tag: Seq<char>, end_tag: Seq<char>) -> Option<
    Seq<char>,
> {
    match find_from(text, start_tag, 0) {
        None => None,
        Some(i) => {
            let from = i + start_tag.len();
            match find_from(text, end_tag, from) {
                None => None,
                Some(j) => Some(trim(text.subrange(from, j))),
            }
        },
    }
}

/// Bounds of the trimmed text between the first `start_tag` and the first
/// `end_tag` after it in `cs`.
fn between_bounds(cs: &[char], start_tag: &[char], end_tag: &[char]) -> (r: Option<(usize, usize)>)
    ensures
        match between_tags(cs@, start_tag@, end_tag@) {
            Some(t) => r matches Some((a, b)) && a <= b <= cs@.len() && cs@.subrange(
                a as int,
                b as int,
            ) == t,
            None => r is None,
        },
{
    proof {
        lemma_find_from(cs@, start_tag@, 0);
    }
    let i = match find_in(cs, start_tag, 0) {
        Some(i) => i,
        None => {
            return None;
        },
    };
    let from = i + start_tag.len();
    proof {
        lemma_find_from(cs@, end_tag@, from as int);
    }
    let j = match find_in(cs, end_tag, from) {
        Some(j) => j,
        None => {
            return None;
        },
    };
    Some(trim_bounds(cs, from, j))
}

/// The text between the first `start_tag` and the first `end_tag` after it,
/// with surrounding whitespace removed; `None` when either tag is missing.
pub fn extract_between_tags(text: &str, start_tag: &str, end_tag: &str) -> (r: Option<String>)
    ensures
        match between_tags(text@, start_tag@, end_tag@) {
            Some(t) => r matches Some(s) && s@ == t,
            None => r is None,
        },
{
    let cs = chars_of(text);
    let st = chars_of(start_tag);
    let et = chars_of(end_tag);
    match between_bounds(cs.as_slice(), st.as_slice(), et.as_slice()) {
        Some((a, b)) => Some(string_from(&cs.as_slice()[a..b])),
        None => None,
    }
}

/// The text after the last `c` in `s`, or all of `s` when `c` does not occur
/// (what `s.rsplit(c).next()` yields).
pub open spec fn after_last(s: Seq<char>, c: char) -> Seq<char>
    decreases s.len(),
{
    if s.len() == 0 {
        s
    } else if s.last() == c {
        Seq::<char>::empty()
    } else {
        after_last(s.drop_last(), c).push(s.last())
    }
}

/// Where the text after the last `c` in `cs[lo..hi]` begins.
fn after_last_start(cs: &[char], lo: usize, hi: usize, c: char) -> (b: usize)
    requires
        lo <= hi <= cs@.len(),
    ensures
        lo <= b <= hi,
        cs@.subrange(b as int, hi as int) == after_last(cs@.subrange(lo as int, hi as int), c),
{
    let mut b = hi;
    while b > lo && cs[b - 1] != c
        invariant
            lo <= b <= hi <= cs@.len(),
            after_last(cs@.subrange(lo as int, hi as int), c) == after_last(
                cs@.subrange(lo as int, b as int),
                c,
            ) + cs@.subrange(b as int, hi as int),
        decreases b - lo,
    {
        let ghost w = cs@.subrange(lo as int, b as int);
        assert(w.drop_last() =~= cs@.subrange(lo as int, b - 1));
        assert(after_last(w.drop_last(), c).push(w.last()) + cs@.subrange(b as int, hi as int)
            =~= after_last(w.drop_last(), c) + cs@.subrange(b - 1, hi as int));
        b = b - 1;
    }
    assert(after_last(cs@.subrange(lo as int, b as int), c) =~= Seq::<char>::empty());
    assert(Seq::<char>::empty() + cs@.subrange(b as int, hi as int) =~= cs@.subrange(
        b as int,
        hi as int,
    ));
    b
}

/// The characters of `<item>`.
pub open spec fn item_open() -> Seq<char> {
    seq!['<', 'i', 't', 'e', 'm', '>']
}

/// The characters of `</item>`.
pub open spec fn item_close() -> Seq<char> {
    seq!['<', '/', 'i', 't', 'e', 'm', '>']
}

/// The characters of `<title>` and `</title>`.
pub open spec fn title_tags() -> (Seq<char>, Seq<char>) {
    (seq!['<', 't', 'i', 't', 'l', 'e', '>'], seq!['<', '/', 't', 'i', 't', 'l', 'e', '>'])
}

/// The characters of `<source` and `</source>`.
pub open spec fn source_tags() -> (Seq<char>, Seq<char>) {
    (
        seq!['<', 's', 'o', 'u', 'r', 'c', 'e'],
        seq!['<', '/', 's', 'o', 'u', 'r', 'c', 'e', '>'],
    )
}

/// The characters of `<pubDate>` and `</pubDate>`.
pub open spec fn pub_date_tags() -> (Seq<char>, Seq<char>) {
    (
        seq!['<', 'p', 'u', 'b', 'D', 'a', 't', 'e', '>'],
        seq!['<', '/', 'p', 'u', 'b', 'D', 'a', 't', 'e', '>'],
    )
}

/// The found text, or the empty text.
pub open spec fn or_empty(t: Option<Seq<char>>) -> Seq<char> {
    match t {
        Some(s) => s,
        None => Seq::<char>::empty(),
    }
}

/// The title, source name and publication date of an RSS item. The source
/// name is what follows the last `>` inside the `<source ...>` element.
pub open spec fn article_from_item(item: Seq<char>) -> (Seq<char>, Seq<char>, Seq<char>) {
    (
        or_empty(between_tags(item, title_tags().0, title_tags().1)),
        match between_tags(item, source_tags().0, source_tags().1) {
            Some(block) => trim(after_last(block, '>')),
            None => Seq::<char>::empty(),
        },
        or_empty(between_tags(item, pub_date_tags().0, pub_date_tags().1)),
    )
}

/// The spans `[start, end)` of the complete `<item>...</item>` elements of a
/// feed from `cursor` on, in order; each ends after the first `</item>` that
/// follows its `<item>`, and the next is looked for from there.
pub open spec fn item_spans(s: Seq<char>, cursor: int) -> Seq<(int, int)>
    decreases s.len() - cursor,
{
    if cursor < 0 {
        Seq::<(int, int)>::empty()
    } else {
        match find_from(s, item_open(), cursor) {
            None => Seq::<(int, int)>::empty(),
            Some(start) => match find_from(s, item_close(), start) {
                None => Seq::<(int, int)>::empty(),
                Some(e) => {
                    proof {
                        lemma_find_from(s, item_open(), cursor);
                        lemma_find_from(s, item_close(), start);
                    }
                    seq![(start, e + item_close().len())] + item_spans(
                        s,
                        e + item_close().len(),
                    )
                },
            },
        }
    }
}

/// The articles of a feed: those of its first `limit` items.
pub open spec fn feed_articles(rss: Seq<char>, limit: nat) -> Seq<(Seq<char>, Seq<char>, Seq<char>)> {
    let spans = item_spans(rss, 0);
    let n = if spans.len() <= limit { spans.len() } else { limit };
    Seq::new(n, |i: int| article_from_item(rss.subrange(spans[i].0, spans[i].1)))
}

/// The text of the trimmed range, or the empty text.
fn text_of(cs: &[char], r: Option<(usize, usize)>) -> (s: String)
    requires
        r matches Some((a, b)) ==> a <= b <= cs@.len(),
    ensures
        s@ == match r {
            Some((a, b)) => cs@.subrange(a as int, b as int),
            None => Seq::<char>::empty(),
        },
{
    match r {
        Some((a, b)) => string_from(&cs[a..b]),
        None => String::new(),
    }
}

/// The title, source name and publication date of one RSS item.
fn read_item(item: &[char]) -> (a: NewsArticle)
    ensures
        article_texts(a) == article_from_item(item@),
{
    let title_open: [char; 7] = ['<', 't', 'i', 't', 'l', 'e', '>'];
    let title_close: [char; 8] = ['<', '/', 't', 'i', 't', 'l', 'e', '>'];
    let source_open: [char; 7] = ['<', 's', 'o', 'u', 'r', 'c', 'e'];
    let source_close: [char; 9] = ['<', '/', 's', 'o', 'u', 'r', 'c', 'e', '>'];
    let date_open: [char; 9] = ['<', 'p', 'u', 'b', 'D', 'a', 't', 'e', '>'];
    let date_close: [char; 10] = ['<', '/', 'p', 'u', 'b', 'D', 'a', 't', 'e', '>'];
    assert(title_open@ =~= title_tags().0);
    assert(title_close@ =~= title_tags().1);
    assert(source_open@ =~= source_tags().0);
    assert(source_close@ =~= source_tags().1);
    assert(date_open@ =~= pub_date_tags().0);
    assert(date_close@ =~= pub_date_tags().1);
    let title = text_of(item, between_bounds(item, title_open.as_slice(), title_close.as_slice()));
    let pub_date = text_of(
        item,
        between_bounds(item, date_open.as_slice(), date_close.as_slice()),
    );
    let source = match between_bounds(item, source_open.as_slice(), source_close.as_slice()) {
        Some((a, b)) => {
            let s = after_last_start(item, a, b, '>');
            let (x, y) = trim_bounds(item, s, b);
            string_from(&item[x..y])
        },
        None => String::new(),
    };
    NewsArticle { title, source, pub_date }
}

/// The articles of the first `limit` items of an RSS feed, in feed order.
pub fn parse_news_items(rss: &str, limit: u64) -> (articles: Vec<NewsArticle>)
    ensures
        articles@.len() == feed_articles(rss@, limit as nat).len(),
        forall|i: int|
            0 <= i < articles@.len() ==> article_texts(#[trigger] articles@[i]) == feed_articles(
                rss@,
                limit as nat,
            )[i],
{
    let cs = chars_of(rss);
    let open: [char; 6] = ['<', 'i', 't', 'e', 'm', '>'];
    let close: [char; 7] = ['<', '/', 'i', 't', 'e', 'm', '>'];
    assert(open@ =~= item_open());
    assert(close@ =~= item_close());
    let mut articles: Vec<NewsArticle> = Vec::new();
    let mut cursor: usize = 0;
    let ghost mut seen: Seq<(int, int)> = Seq::empty();
    loop
        invariant
            cursor <= cs@.len(),
            cs@ == rss@,
            open@ == item_open(),
            close@ == item_close(),
            item_spans(cs@, 0) == seen + item_spans(cs@, cursor as int),
            forall|i: int| 0 <= i < seen.len() ==> 0 <= #[trigger] seen[i].0 <= seen[i].1 <= cs@.len(),
            articles@.len() == if seen.len() <= limit { seen.len() } else { limit as nat },
            forall|i: int|
                0 <= i < articles@.len() ==> article_texts(#[trigger] articles@[i])
                    == article_from_item(cs@.subrange(seen[i].0, seen[i].1)),
        ensures
            item_spans(cs@, 0) == seen,
            articles@.len() == if seen.len() <= limit { seen.len() } else { limit as nat },
            forall|i: int| 0 <= i < seen.len() ==> 0 <= #[trigger] seen[i].0 <= seen[i].1 <= cs@.len(),
            forall|i: int|
                0 <= i < articles@.len() ==> article_texts(#[trigger] articles@[i])
                    == article_from_item(cs@.subrange(seen[i].0, seen[i].1)),
        decreases cs@.len() - cursor,
    {
        proof {
            lemma_find_from(cs@, item_open(), cursor as int);
        }
        let start = match find_in(cs.as_slice(), open.as_slice(), cursor) {
            Some(s) => s,
            None => {
                assert(seen + Seq::<(int, int)>::empty() =~= seen);
                break;
            },
        };
        proof {
            lemma_find_from(cs@, item_close(), start as int);
        }
        let e = match find_in(cs.as_slice(), close.as_slice(), start) {
            Some(e) => e,
            None => {
                assert(seen + Seq::<(int, int)>::empty() =~= seen);
                break;
            },
        };
        let end = e + close.len();
        if (articles.len() as u64) < limit {
            let a = read_item(&cs.as_slice()[start..end]);
            articles.push(a);
        }
        proof {
            let sp = (start as int, end as int);
            assert(item_spans(cs@, cursor as int) == seq![sp] + item_spans(cs@, end as int));
            assert(seen + (seq![sp] + item_spans(cs@, end as int)) =~= seen.push(sp) + item_spans(
                cs@,
                end as int,
            ));
            seen = seen.push(sp);
        }
        cursor = end;
    }
    articles
}


/// A byte that percent-encoding leaves as it is: an ASCII letter or digit,
/// `-`, `.`, `_` or `~`.
pub open spec fn is_unreserved(b: u8) -> bool {
    ||| 0x30 <= b <= 0x39
    ||| 0x41 <= b <= 0x5A
    ||| 0x61 <= b <= 0x7A
    ||| b == 0x2D
    ||| b == 0x2E
    ||| b == 0x5F
    ||| b == 0x7E
}

/// The upper-case hexadecimal digit of a value below sixteen.
pub open spec fn hex_digit(d: u8) -> char {
    if d < 10 {
        (0x30 + d) as char
    } else {
        (0x41 - 10 + d) as char
    }
}

/// Percent-encoding of bytes: an unreserved byte stands for itself, any
/// other byte becomes `%` and its two upper-case hexadecimal digits.
pub open spec fn percent_encoded(bytes: Seq<u8>) -> Seq<char>
    decreases bytes.len(),
{
    if bytes.len() == 0 {
        Seq::<char>::empty()
    } else {
        let b = bytes.last();
        percent_encoded(bytes.drop_last()) + if is_unreserved(b) {
            seq![b as char]
        } else {
            seq!['%', hex_digit(b >> 4), hex_digit(b & 15)]
        }
    }
}

/// Percent-encodes the UTF-8 bytes of a text (`urlencoding::encode`).
#[verifier::external_body]
fn url_encode(text: &str) -> (r: String)
    ensures
        r@ == percent_encoded(vstd::utf8::encode_utf8(text@)),
{
    urlencoding::encode(text).into_owned()
}

/// The address of the news search feed for a keyword text.
pub open spec fn news_search_url_of(keyword: Seq<char>) -> Seq<char> {
    "https://news.google.com/rss/search?q="@ + percent_encoded(vstd::utf8::encode_utf8(keyword))
}

/// The address of the news search feed for a keyword text: the feed's search
/// address with the keyword, percent-encoded, as its query.
pub fn news_search_url(keyword: &str) -> (url: String)
    ensures
        url@ == news_search_url_of(keyword@),
{
    let mut url = String::from_str("https://news.google.com/rss/search?q=");
    let encoded = url_encode(keyword);
    url.append(encoded.as_str());
    url
}

} // verus!
