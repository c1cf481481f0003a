use trend_analyzes::config::{get_required_env, ServiceConfig};
use trend_analyzes::error::AppError;
use trend_analyzes::gateway::{
    ai_service_target, internal_token_valid, unauthorized_internal_request, upstream_unavailable, value_or,
    web_dist_candidates, DEFAULT_AI_SERVICE_URL, DEFAULT_ANALYZER_SERVICE_URL,
};

fn vars(pairs: &[(&str, &str)]) -> Vec<(String, String)> {
    pairs.iter().map(|(k, v)| (k.to_string(), v.to_string())).collect()
}

#[test]
fn config_reads_all_four_settings() {
    let env = vars(&[
        ("CAPGEN_API_KEY", "key"),
        ("CAPGEN_BASE_URL", "https://llm/"),
        ("CAPGEN_MODEL", " model "),
        ("AI_SERVICE_TOKEN", "secret"),
        ("OTHER", "x"),
    ]);
    let c = ServiceConfig::from_env(&env).unwrap();
    assert_eq!(c.capgen_api_key, "key");
    assert_eq!(c.capgen_base_url, "https://llm/");
    assert_eq!(c.capgen_model, " model ");
    assert_eq!(c.ai_service_token, "secret");
}

#[test]
fn config_names_first_missing_setting() {
    let env = vars(&[("CAPGEN_API_KEY", "key"), ("CAPGEN_MODEL", "m")]);
    match ServiceConfig::from_env(&env) {
        Err(AppError::MissingConfig(n)) => assert_eq!(n, "CAPGEN_BASE_URL"),
        other => panic!("unexpected {other:?}"),
    }
}

#[test]
fn blank_setting_counts_as_missing() {
    let env = vars(&[("CAPGEN_API_KEY", " \t ")]);
    match get_required_env(&env, "CAPGEN_API_KEY") {
        Err(AppError::MissingConfig(n)) => assert_eq!(n, "CAPGEN_API_KEY"),
        other => panic!("unexpected {other:?}"),
    }
    assert_eq!(get_required_env(&vars(&[("A", " v ")]), "A").unwrap(), " v ");
}

#[test]
fn missing_config_error_status_and_text() {
    let e = AppError::missing_config("X");
    assert_eq!(e.status_code(), 500);
    assert_eq!(e.message(), "missing configuration: X");
}

#[test]
fn error_statuses_and_messages() {
    let cases = [
        (AppError::BadRequest("b".to_owned()), 400, "bad request: b"),
        (AppError::InvalidUpstream("i".to_owned()), 502, "upstream response invalid: i"),
        (AppError::MissingConfig("m".to_owned()), 500, "missing configuration: m"),
    ];
    for (e, status, text) in cases {
        let (s, body) = e.into_response();
        assert_eq!(s, status);
        assert_eq!(body.message, text);
    }
}

#[test]
fn upstream_request_error_shows_reqwest_text() {
    let err = reqwest::Client::new().get("not a url").build().unwrap_err();
    let expected = format!("upstream request failed: {err}");
    let e = AppError::UpstreamRequest(err);
    assert_eq!(e.status_code(), 502);
    assert_eq!(e.message(), expected);
    assert!(e.message().starts_with("upstream request failed: builder error"));
}

#[test]
fn ai_service_target_uses_defaults_and_requires_token() {
    assert_eq!(
        ai_service_target(None, Some("tok".to_owned())).unwrap(),
        (DEFAULT_AI_SERVICE_URL.to_owned(), "tok".to_owned())
    );
    assert_eq!(DEFAULT_AI_SERVICE_URL, "http://localhost:3060/ai/chat");
    assert_eq!(
        ai_service_target(Some("http://ai/chat".to_owned()), Some("t".to_owned())).unwrap().0,
        "http://ai/chat"
    );
    assert_eq!(
        ai_service_target(None, Some("  ".to_owned())).unwrap_err(),
        "missing configuration: AI_SERVICE_TOKEN"
    );
    assert_eq!(ai_service_target(None, None).unwrap_err(), "missing configuration: AI_SERVICE_TOKEN");
}

#[test]
fn value_or_default() {
    assert_eq!(value_or(None, DEFAULT_ANALYZER_SERVICE_URL), "http://localhost:3050/analyzer_service");
    assert_eq!(value_or(Some(String::new()), "d"), "");
}

#[test]
fn upstream_unavailable_answer() {
    let (status, body) = upstream_unavailable("ai", "connection refused");
    assert_eq!(status, 502);
    assert_eq!(body.message, "ai service unavailable: connection refused");
}

#[test]
fn internal_token_check() {
    assert!(internal_token_valid(Some("s3cret"), "s3cret"));
    assert!(!internal_token_valid(Some("s3cret "), "s3cret"));
    assert!(!internal_token_valid(None, "s3cret"));
    let (status, body) = unauthorized_internal_request();
    assert_eq!(status, 401);
    assert_eq!(body.message, "unauthorized internal request");
}

#[test]
fn web_dist_candidates_order() {
    assert_eq!(web_dist_candidates(None), vec!["web/dist".to_owned(), "../../web/dist".to_owned()]);
    assert_eq!(web_dist_candidates(Some("/srv/ui".to_owned())), vec!["/srv/ui".to_owned()]);
}
