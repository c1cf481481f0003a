//! The decision of the launcher that runs the API gateway and the AI service
//! side by side: when either exits, the other is stopped.

use vstd::prelude::*;

verus! {

/// One of the two services the launcher runs.
#[derive(Clone, Copy, Debug, PartialEq, Eq, Structural)]
pub enum Service {
    ApiGateway,
    AiService,
}

/// What the launcher does when it has looked at both services: nothing while
/// both run; otherwise stop the other service and end with a message that
/// names the one that exited and its exit status. The gateway is looked at
/// first.
pub fn supervise(gateway_exit: Option<String>, ai_service_exit: Option<String>) -> (r: Option<
    (Service, String),
>)
    ensures
        match (gateway_exit, ai_service_exit) {
            (Some(status), _) => r matches Some((stop, m)) && stop == Service::AiService && m@
                == "api-gateway exited with status "@ + status@,
            (None, Some(status)) => r matches Some((stop, m)) && stop == Service::ApiGateway && m@
                == "ai_service exited with status "@ + status@,
            (None, None) => r is None,
        },
{
    match (gateway_exit, ai_service_exit) {
        (Some(status), _) => {
            let mut m = String::from_str("api-gateway exited with status ");
            m.append(status.as_str());
            Some((Service::AiService, m))
        },
        (None, Some(status)) => {
            let mut m = String::from_str("ai_service exited with status ");
            m.append(status.as_str());
            Some((Service::ApiGateway, m))
        },
        (None, None) => None,
    }
}

} // verus!
