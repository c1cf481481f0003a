//! Decisions of the API gateway: where its upstream services are, how it
//! answers when one of them fails, and which requests may reach the AI
//! service.

use vstd::prelude::*;
use crate::error::ApiError;

verus! {

/// Where the AI service's chat endpoint is when no address is configured.
pub const DEFAULT_AI_SERVICE_URL: &'static str = "http://localhost:3060/ai/chat";

/// Where the analyzer service is when no address is configured.
pub const DEFAULT_ANALYZER_SERVICE_URL: &'static str = "http://localhost:3050/analyzer_service";

/// Where the gateway listens when no address is configured.
pub const DEFAULT_GATEWAY_BIND_ADDR: &'static str = "0.0.0.0:3000";

/// The configured value, or else the default.
pub fn value_or(configured: Option<String>, default: &str) -> (r: String)
    ensures
        r@ == match configured {
            Some(v) => v@,
            None => default@,
        },
{
    match configured {
        Some(v) => v,
        None => String::from_str(default),
    }
}

/// The text holds something besides whitespace.
pub open spec fn not_blank(s: Seq<char>) -> bool {
    crate::text::trim(s).len() > 0
}

/// The address of the AI service and the token that authenticates the
/// gateway to it: the configured address or the default one, and the
/// configured token, which must not be blank.
pub fn ai_service_target(configured_url: Option<String>, configured_token: Option<String>) -> (r:
    Result<(String, String), String>)
    ensures
        match configured_token {
            Some(t) => if not_blank(t@) {
                r matches Ok((u, k)) && k@ == t@ && u@ == match configured_url {
                    Some(v) => v@,
                    None => DEFAULT_AI_SERVICE_URL@,
                }
            } else {
                r matches Err(m) && m@ == "missing configuration: AI_SERVICE_TOKEN"@
            },
            None => r matches Err(m) && m@ == "missing configuration: AI_SERVICE_TOKEN"@,
        },
{
    let url = value_or(configured_url, DEFAULT_AI_SERVICE_URL);
    match configured_token {
        Some(t) => if crate::config::is_not_blank(t.as_str()) {
            Ok((url, t))
        } else {
            Err(String::from_str("missing configuration: AI_SERVICE_TOKEN"))
        },
        None => Err(String::from_str("missing configuration: AI_SERVICE_TOKEN")),
    }
}

/// The status with which the gateway answers when an upstream service fails.
pub const BAD_GATEWAY: u16 = 502;

/// The answer of the gateway when the upstream `service` failed with
/// `detail`: bad gateway, and a message that names the service.
pub fn upstream_unavailable(service: &str, detail: &str) -> (r: (u16, ApiError))
    ensures
        r.0 == BAD_GATEWAY,
        r.1.message@ == service@ + " service unavailable: "@ + detail@,
{
    let mut message = String::from_str(service);
    message.append(" service unavailable: ");
    message.append(detail);
    (BAD_GATEWAY, ApiError { message })
}

/// Equality of two texts.
fn same_text(a: &str, b: &str) -> (r: bool)
    ensures
        r == (a@ == b@),
{
    let x = String::from_str(a);
    let y = String::from_str(b);
    x == y
}

/// A request may reach the AI service only when its internal-token header
/// is present, readable as text, and equal to the service's token.
pub fn internal_token_valid(header: Option<&str>, expected: &str) -> (r: bool)
    ensures
        r == match header {
            Some(h) => h@ == expected@,
            None => false,
        },
{
    match header {
        Some(h) => same_text(h, expected),
        None => false,
    }
}

/// The answer to a request without a valid internal token: unauthorized.
pub fn unauthorized_internal_request() -> (r: (u16, ApiError))
    ensures
        r.0 == 401,
        r.1.message@ == "unauthorized internal request"@,
{
    (401, ApiError { message: String::from_str("unauthorized internal request") })
}

/// The directories where the built web front end may be: the configured one
/// alone, or else `web/dist` and `../../web/dist`, in that order.
pub fn web_dist_candidates(configured: Option<String>) -> (r: Vec<String>)
    ensures
        match configured {
            Some(c) => r@.len() == 1 && r@[0]@ == c@,
            None => r@.len() == 2 && r@[0]@ == "web/dist"@ && r@[1]@ == "../../web/dist"@,
        },
{
    let mut r: Vec<String> = Vec::new();
    match configured {
        Some(c) => {
            r.push(c);
        },
        None => {
            r.push(String::from_str("web/dist"));
            r.push(String::from_str("../../web/dist"));
        },
    }
    r
}

} // verus!
