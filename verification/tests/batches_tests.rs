use trend_analyzes::batches::{split_article_batches, split_items};
use trend_analyzes::error::AppError;

fn articles(n: usize) -> String {
    let items: Vec<String> = (0..n).map(|i| format!("{{\"title\":\"t{i}\"}}")).collect();
    format!("[{}]", items.join(","))
}

fn count(batch: &str) -> usize {
    serde_json::from_str::<Vec<serde_json::Value>>(batch).unwrap().len()
}

#[test]
fn splits_even_number_in_halves() {
    let (a, b) = split_article_batches(&articles(4)).unwrap();
    assert_eq!(a, r#"[{"title":"t0"},{"title":"t1"}]"#);
    assert_eq!(b, r#"[{"title":"t2"},{"title":"t3"}]"#);
}

#[test]
fn odd_number_gives_first_batch_one_more() {
    let (a, b) = split_article_batches(&articles(5)).unwrap();
    assert_eq!(count(&a), 3);
    assert_eq!(count(&b), 2);
    assert_eq!(a, r#"[{"title":"t0"},{"title":"t1"},{"title":"t2"}]"#);
}

#[test]
fn keeps_only_first_twenty() {
    let (a, b) = split_article_batches(&articles(25)).unwrap();
    assert_eq!(count(&a), 10);
    assert_eq!(count(&b), 10);
    assert!(b.ends_with(r#"{"title":"t19"}]"#));
}

#[test]
fn empty_and_single() {
    assert_eq!(split_article_batches("[]").unwrap(), ("[]".to_owned(), "[]".to_owned()));
    assert_eq!(split_article_batches(" [1] ").unwrap(), ("[1]".to_owned(), "[]".to_owned()));
}

#[test]
fn not_an_array_is_invalid_upstream() {
    match split_article_batches("{\"a\":1}") {
        Err(AppError::InvalidUpstream(m)) => {
            assert!(m.starts_with("failed to parse news articles: "), "{m}");
        }
        other => panic!("unexpected {other:?}"),
    }
}

#[test]
fn garbage_is_invalid_upstream_with_serde_text() {
    let text = "not json";
    let expected = serde_json::from_str::<Vec<serde_json::Value>>(text).unwrap_err().to_string();
    match split_article_batches(text) {
        Err(AppError::InvalidUpstream(m)) => {
            assert_eq!(m, format!("failed to parse news articles: {expected}"));
        }
        other => panic!("unexpected {other:?}"),
    }
}

fn parse(text: &str) -> Vec<serde_json::Value> {
    serde_json::from_str(text).unwrap()
}

#[test]
fn batches_read_back_to_the_first_twenty_articles() {
    let text = r#"[1.1, 0.3, 1e300, -0.0, 18446744073709551616, -5, "é\n\"q\"", {"b":1,"a":[true,null,2.5e-8]},
        3, 4, 5, 6, 7, 8, 9, 10, 11, 12, 13, 14, 15, 16]"#;
    let all = parse(text);
    let (f, s) = split_article_batches(text).unwrap();
    let (pf, ps) = (parse(&f), parse(&s));
    assert_eq!(pf.len(), 10);
    assert_eq!(ps.len(), 10);
    let mut joined = pf.clone();
    joined.extend(ps);
    assert_eq!(joined, all[..20].to_vec());
    assert_eq!(pf[3].as_f64().map(|x| x.is_sign_negative()), Some(true));
}

#[test]
fn split_items_halves_first_twenty() {
    let (a, b) = split_items((0..7).collect::<Vec<u32>>());
    assert_eq!(a, vec![0, 1, 2, 3]);
    assert_eq!(b, vec![4, 5, 6]);
    let (a, b) = split_items((0..30).collect::<Vec<u32>>());
    assert_eq!(a, (0..10).collect::<Vec<u32>>());
    assert_eq!(b, (10..20).collect::<Vec<u32>>());
    let (a, b) = split_items(Vec::<u32>::new());
    assert!(a.is_empty() && b.is_empty());
}
