//! Where Redis is, and what is said when it cannot be reached.

use crate::error::plain_outcome;
use crate::error::StateError;
use crate::json::json_member;
use crate::json::json_string;
use crate::json::member;
use crate::json::string_of;
use crate::text::join;
use serde_json::Value;
use vstd::prelude::*;

verus! {

/// Where Redis is looked for when the configuration does not say.
pub const DEFAULT_REDIS_URL: &'static str = "redis://localhost:6379";

/// The member of the configuration that says where Redis is.
pub const REDIS_URL_MEMBER: &'static str = "redis_url";

/// The address in a configuration: the member of that name, if there is one and it is a string.
pub open spec fn configured_url(config: Option<Value>) -> Option<Seq<char>> {
    match config {
        None => None,
        Some(c) => match json_member(c, REDIS_URL_MEMBER@) {
            None => None,
            Some(url) => json_string(url),
        },
    }
}

/// The address to connect to, given the one that is configured.
pub fn redis_url_or_default(configured: Option<&str>) -> (r: String)
    ensures
        r@ == match configured {
            Some(url) => url@,
            None => DEFAULT_REDIS_URL@,
        },
{
    match configured {
        Some(url) => url.to_string(),
        None => DEFAULT_REDIS_URL.to_string(),
    }
}

/// The address to connect to, under a configuration.
pub fn redis_url(config: Option<&Value>) -> (r: String)
    ensures
        r@ == match configured_url(
            match config {
                Some(c) => Some(*c),
                None => None,
            },
        ) {
            Some(url) => url,
            None => DEFAULT_REDIS_URL@,
        },
{
    let configured = match config {
        None => None,
        Some(c) => match member(c, REDIS_URL_MEMBER) {
            None => None,
            Some(url) => string_of(url),
        },
    };
    redis_url_or_default(configured)
}

/// How an attempt to connect ended.
#[derive(Debug)]
pub enum ConnectAttempt {
    Connected,
    TimedOut,
    /// With the words of the error.
    Failed(String),
}

/// Judges an attempt to connect. `limit` says how long it was allowed to take.
pub fn judge_connection(redis_url: &str, limit: &str, attempt: &ConnectAttempt) -> (r: Result<
    (),
    StateError,
>)
    ensures
        plain_outcome(r) == match attempt {
            ConnectAttempt::Connected => Ok::<(), Seq<char>>(()),
            ConnectAttempt::TimedOut => Err(
                "Redis connection timed out after "@ + limit@
                    + ". Please ensure Redis is running at: "@ + redis_url@,
            ),
            ConnectAttempt::Failed(e) => Err(
                "Failed to connect to Redis at "@ + redis_url@ + ": "@ + e@,
            ),
        },
{
    match attempt {
        ConnectAttempt::Connected => Ok(()),
        ConnectAttempt::TimedOut => {
            let what = join("Redis connection timed out after ", limit);
            let advice = join(what.as_str(), ". Please ensure Redis is running at: ");
            Err(StateError::because(advice.as_str(), redis_url))
        },
        ConnectAttempt::Failed(e) => {
            let place = join("Failed to connect to Redis at ", redis_url);
            Err(StateError::because(join(place.as_str(), ": ").as_str(), e.as_str()))
        },
    }
}

} // verus!
