//! Client configuration: defaults, the base URL's normal form and where the
//! API key comes from.

use vstd::prelude::*;

use crate::text::{chars_of, string_of};

verus! {

broadcast use vstd::string::group_string_axioms;

/// The API base URL used when none is configured.
pub const DEFAULT_BASE_URL: &'static str = "https://api.anypost.com/v1";

/// Automatic retries for transient failures, unless configured.
pub const DEFAULT_MAX_RETRIES: u32 = 2;

/// The per-request timeout, in seconds, unless configured.
pub const DEFAULT_TIMEOUT_SECS: u64 = 30;

/// The environment variable the API key is read from when none is given.
pub const ENV_KEY: &'static str = "ANYPOST_API_KEY";

/// `s` without any trailing `c`, as `str::trim_end_matches` with one
/// character.
pub open spec fn strip_trailing(s: Seq<char>, c: char) -> Seq<char>
    decreases s.len(),
{
    if s.len() > 0 && s.last() == c {
        strip_trailing(s.drop_last(), c)
    } else {
        s
    }
}

/// The base URL requests are sent under: the configured one (or the
/// default) without trailing slashes.
pub fn normalize_base_url(base_url: Option<&str>) -> (r: String)
    ensures
        r@ == strip_trailing(
            match base_url {
                Some(b) => b@,
                None => DEFAULT_BASE_URL@,
            },
            '/',
        ),
{
    let chosen = match base_url {
        Some(b) => b,
        None => DEFAULT_BASE_URL,
    };
    let cs = chars_of(chosen);
    let mut end = cs.len();
    assert(cs@.take(end as int) =~= cs@);
    while end > 0 && cs[end - 1] == '/'
        invariant
            0 <= end <= cs@.len(),
            cs@ == chosen@,
            strip_trailing(cs@, '/') == strip_trailing(cs@.take(end as int), '/'),
        decreases end,
    {
        assert(cs@.take(end as int).drop_last() =~= cs@.take(end - 1));
        end = end - 1;
    }
    assert(cs@.subrange(0, end as int) =~= cs@.take(end as int));
    string_of(cs.as_slice(), 0, end)
}

/// The error message when no API key is configured anywhere.
pub open spec fn missing_key_message() -> Seq<char> {
    "An Anypost API key is required. Pass it to the builder or set ANYPOST_API_KEY."@
}

/// The API key in force: the one given explicitly when it is non-empty,
/// else the environment's when non-empty; otherwise a configuration error.
pub fn resolve_api_key(explicit: Option<&str>, from_env: Option<&str>) -> (r: Result<String, String>)
    ensures
        match explicit {
            Some(k) if k@.len() > 0 => r matches Ok(key) && key@ == k@,
            _ => match from_env {
                Some(k) if k@.len() > 0 => r matches Ok(key) && key@ == k@,
                _ => r matches Err(m) && m@ == missing_key_message(),
            },
        },
{
    if let Some(k) = explicit {
        if !k.is_empty() {
            return Ok(k.to_string());
        }
    }
    if let Some(k) = from_env {
        if !k.is_empty() {
            return Ok(k.to_string());
        }
    }
    Err("An Anypost API key is required. Pass it to the builder or set ANYPOST_API_KEY.".to_string())
}

} // verus!
