//! The settings of the AI service, read from its environment.

use vstd::prelude::*;
use crate::error::AppError;
use crate::text::{chars_of, trim, trim_bounds};

verus! {

/// The settings the AI service needs to run.
#[derive(Debug, Clone)]
pub struct ServiceConfig {
    pub capgen_api_key: String,
    pub capgen_base_url: String,
    pub capgen_model: String,
    pub ai_service_token: String,
}

/// The value of the environment variable `name` (the first entry with that
/// name).
pub open spec fn env_value(vars: Seq<(String, String)>, name: Seq<char>) -> Option<Seq<char>>
    decreases vars.len(),
{
    if vars.len() == 0 {
        None
    } else if vars[0].0@ == name {
        Some(vars[0].1@)
    } else {
        env_value(vars.drop_first(), name)
    }
}

/// The value of a required variable: present and not blank.
pub open spec fn required_value(vars: Seq<(String, String)>, name: Seq<char>) -> Option<Seq<char>> {
    match env_value(vars, name) {
        Some(v) => if trim(v).len() > 0 {
            Some(v)
        } else {
            None
        },
        None => None,
    }
}

/// The value of the environment variable `name`, if it is set.
pub fn lookup_env(vars: &[(String, String)], name: &str) -> (r: Option<String>)
    ensures
        match env_value(vars@, name@) {
            Some(v) => r matches Some(s) && s@ == v,
            None => r is None,
        },
{
    let key = String::from_str(name);
    let mut i: usize = 0;
    assert(vars@.skip(0) =~= vars@);
    while i < vars.len()
        invariant
            i <= vars@.len(),
            key@ == name@,
            env_value(vars@, name@) == env_value(vars@.skip(i as int), name@),
        decreases vars@.len() - i,
    {
        assert(vars@.skip(i as int).drop_first() =~= vars@.skip(i + 1));
        assert(vars@.skip(i as int)[0] == vars@[i as int]);
        if vars[i].0 == key {
            return Some(vars[i].1.clone());
        }
        i = i + 1;
    }
    None
}

/// The text holds something besides whitespace.
pub fn is_not_blank(s: &str) -> (b: bool)
    ensures
        b == (trim(s@).len() > 0),
{
    let cs = chars_of(s);
    let (a, b) = trim_bounds(cs.as_slice(), 0, cs.len());
    assert(cs@.subrange(0, cs@.len() as int) =~= cs@);
    a < b
}

/// The value of a required environment variable; a missing-configuration
/// error naming it when it is unset or blank.
pub fn get_required_env(vars: &[(String, String)], name: &str) -> (r: Result<String, AppError>)
    ensures
        match required_value(vars@, name@) {
            Some(v) => r matches Ok(s) && s@ == v,
            None => r matches Err(AppError::MissingConfig(n)) && n@ == name@,
        },
{
    match lookup_env(vars, name) {
        Some(v) => if is_not_blank(v.as_str()) {
            Ok(v)
        } else {
            Err(AppError::missing_config(name))
        },
        None => Err(AppError::missing_config(name)),
    }
}

/// The names of the required variables, in the order they are checked.
pub open spec fn config_names() -> Seq<Seq<char>> {
    seq!["CAPGEN_API_KEY"@, "CAPGEN_BASE_URL"@, "CAPGEN_MODEL"@, "AI_SERVICE_TOKEN"@]
}

impl ServiceConfig {
    /// The settings from the environment variables `CAPGEN_API_KEY`,
    /// `CAPGEN_BASE_URL`, `CAPGEN_MODEL` and `AI_SERVICE_TOKEN`, each of which
    /// must be set and not blank; the error names the first that is not.
    pub fn from_env(vars: &[(String, String)]) -> (r: Result<ServiceConfig, AppError>)
        ensures
            (forall|i: int| 0 <= i < 4 ==> #[trigger] required_value(vars@, config_names()[i]) is Some)
                ==> (r matches Ok(c) && c.capgen_api_key@ == required_value(vars@, config_names()[0])->0
                && c.capgen_base_url@ == required_value(vars@, config_names()[1])->0
                && c.capgen_model@ == required_value(vars@, config_names()[2])->0
                && c.ai_service_token@ == required_value(vars@, config_names()[3])->0),
            forall|i: int|
                0 <= i < 4 && #[trigger] required_value(vars@, config_names()[i]) is None && (forall|
                    j: int,
                | 0 <= j < i ==> required_value(vars@, config_names()[j]) is Some) ==> (r matches Err(
                    AppError::MissingConfig(n),
                ) && n@ == config_names()[i]),
    {
        let capgen_api_key = get_required_env(vars, "CAPGEN_API_KEY")?;
        let capgen_base_url = get_required_env(vars, "CAPGEN_BASE_URL")?;
        let capgen_model = get_required_env(vars, "CAPGEN_MODEL")?;
        let ai_service_token = get_required_env(vars, "AI_SERVICE_TOKEN")?;
        Ok(ServiceConfig { capgen_api_key, capgen_base_url, capgen_model, ai_service_token })
    }
}

} // verus!
