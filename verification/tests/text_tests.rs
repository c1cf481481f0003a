use trend_analyzes::text::{build_search_query, chars_of, endpoint_url, string_from, trim_text, white_space};

#[test]
fn search_query_joins_trimmed_keywords_with_spaces() {
    assert_eq!(build_search_query("rust, ai ,  chips"), "rust ai chips");
}

#[test]
fn search_query_drops_empty_keywords() {
    assert_eq!(build_search_query(" , rust,,  ,ai, "), "rust ai");
}

#[test]
fn search_query_of_nothing_is_empty() {
    assert_eq!(build_search_query(""), "");
    assert_eq!(build_search_query(" ,\t, \n"), "");
}

#[test]
fn search_query_keeps_inner_spaces() {
    assert_eq!(build_search_query("machine learning,  open source "), "machine learning open source");
}

#[test]
fn search_query_single_keyword() {
    assert_eq!(build_search_query("  climate\t"), "climate");
}

#[test]
fn search_query_is_idempotent_on_example() {
    let once = build_search_query(" a , b c ,, d ");
    assert_eq!(once, "a b c d");
    assert_eq!(build_search_query(&once), once);
}

#[test]
fn search_query_unicode_whitespace() {
    assert_eq!(build_search_query("\u{3000}café\u{00A0},\u{2003}é"), "café é");
}

#[test]
fn trim_matches_std_trim() {
    for s in ["", "  ", " a ", "\t\nx y\r\n", "\u{2028}z\u{205F}", "abc", "\u{0085}q"] {
        assert_eq!(trim_text(s), s.trim());
    }
}

#[test]
fn trim_is_idempotent_on_example() {
    let t = trim_text("  \u{00A0} value \t");
    assert_eq!(t, "value");
    assert_eq!(trim_text(&t), t);
}

#[test]
fn white_space_matches_std() {
    for c in [' ', '\t', '\n', '\u{000B}', '\u{000C}', '\r', '\u{0085}', '\u{00A0}', '\u{1680}', '\u{2000}', '\u{200A}', '\u{2028}', '\u{2029}', '\u{202F}', '\u{205F}', '\u{3000}', 'a', '0', '\u{200B}', '\u{FEFF}', '\u{180E}', '_'] {
        assert_eq!(white_space(c), c.is_whitespace(), "{:?}", c);
    }
}

#[test]
fn chars_round_trip() {
    let s = "héllo wörld ✓";
    let cs = chars_of(s);
    assert_eq!(cs.len(), s.chars().count());
    assert_eq!(string_from(&cs), s);
}

#[test]
fn endpoint_url_strips_trailing_slashes() {
    assert_eq!(endpoint_url("http://host/v1/", "/chat/completions"), "http://host/v1/chat/completions");
    assert_eq!(endpoint_url("http://host/v1///", "/chat/completions"), "http://host/v1/chat/completions");
    assert_eq!(endpoint_url("http://host/v1", "/chat/completions"), "http://host/v1/chat/completions");
    assert_eq!(endpoint_url("", "/search"), "/search");
    assert_eq!(endpoint_url("///", "/search"), "/search");
}

#[test]
fn endpoint_url_ignores_one_more_slash() {
    let base = "https://oauth.reddit.com";
    assert_eq!(endpoint_url(&format!("{base}/"), "/search"), endpoint_url(base, "/search"));
}
