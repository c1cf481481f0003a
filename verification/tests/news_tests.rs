use trend_analyzes::news::{extract_between_tags, news_search_url, parse_news_items};

#[test]
fn extract_between_tags_trims_the_text() {
    let item = "<item><title>  Big news \n</title></item>";
    assert_eq!(extract_between_tags(item, "<title>", "</title>"), Some("Big news".to_owned()));
}

#[test]
fn extract_between_tags_missing_start() {
    assert_eq!(extract_between_tags("<a>x</a>", "<b>", "</b>"), None);
}

#[test]
fn extract_between_tags_missing_end() {
    assert_eq!(extract_between_tags("<b>x", "<b>", "</b>"), None);
}

#[test]
fn extract_between_tags_end_before_start_is_missing() {
    assert_eq!(extract_between_tags("</b> <b>x", "<b>", "</b>"), None);
}

#[test]
fn extract_between_tags_uses_first_occurrences() {
    assert_eq!(extract_between_tags("<b>one</b><b>two</b>", "<b>", "</b>"), Some("one".to_owned()));
}

#[test]
fn extract_between_tags_empty_content() {
    assert_eq!(extract_between_tags("<b>   </b>", "<b>", "</b>"), Some(String::new()));
}

#[test]
fn extract_between_tags_empty_start_tag() {
    assert_eq!(extract_between_tags(" abc</b>", "", "</b>"), Some("abc".to_owned()));
}

#[test]
fn extract_between_tags_unicode() {
    assert_eq!(extract_between_tags("ç<t>ñandú</t>", "<t>", "</t>"), Some("ñandú".to_owned()));
}

const FEED: &str = r#"<?xml version="1.0"?><rss><channel><title>Feed</title>
<item><title>First story</title><link>x</link><pubDate>Mon, 01 Jan 2024 10:00:00 GMT</pubDate><source url="https://a.example">Agency A</source></item>
<item><title> Second story </title><pubDate>Tue, 02 Jan 2024</pubDate></item>
<item><source url="https://c.example">  Paper C </source></item>
</channel></rss>"#;

#[test]
fn parse_news_items_reads_title_source_and_date() {
    let articles = parse_news_items(FEED, 10);
    assert_eq!(articles.len(), 3);
    assert_eq!(articles[0].title, "First story");
    assert_eq!(articles[0].source, "Agency A");
    assert_eq!(articles[0].pub_date, "Mon, 01 Jan 2024 10:00:00 GMT");
    assert_eq!(articles[1].title, "Second story");
    assert_eq!(articles[1].source, "");
    assert_eq!(articles[1].pub_date, "Tue, 02 Jan 2024");
    assert_eq!(articles[2].title, "");
    assert_eq!(articles[2].source, "Paper C");
    assert_eq!(articles[2].pub_date, "");
}

#[test]
fn parse_news_items_respects_limit() {
    let articles = parse_news_items(FEED, 2);
    assert_eq!(articles.len(), 2);
    assert_eq!(articles[1].title, "Second story");
    assert_eq!(parse_news_items(FEED, 0).len(), 0);
}

#[test]
fn parse_news_items_ignores_unclosed_item() {
    let feed = "<item><title>a</title></item><item><title>b</title>";
    let articles = parse_news_items(feed, 20);
    assert_eq!(articles.len(), 1);
    assert_eq!(articles[0].title, "a");
}

#[test]
fn parse_news_items_empty_feed() {
    assert!(parse_news_items("", 20).is_empty());
    assert!(parse_news_items("<rss></rss>", 20).is_empty());
}

#[test]
fn parse_news_items_source_without_attributes() {
    let feed = "<item><source>Plain</source></item>";
    assert_eq!(parse_news_items(feed, 1)[0].source, "Plain");
}

#[test]
fn news_search_url_percent_encodes_keyword() {
    assert_eq!(news_search_url("rust lang"), "https://news.google.com/rss/search?q=rust%20lang");
    assert_eq!(news_search_url("a-b_c.d~e"), "https://news.google.com/rss/search?q=a-b_c.d~e");
    assert_eq!(news_search_url("é&?"), "https://news.google.com/rss/search?q=%C3%A9%26%3F");
    assert_eq!(news_search_url(""), "https://news.google.com/rss/search?q=");
}
