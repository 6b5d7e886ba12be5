//! Settings of the CLI and its session: the configuration read from the
//! environment, the stored access token, switches and the login callback.
use vstd::prelude::*;
use crate::text::{ascii_lowered, str_eq, to_ascii_lowercase, trim, trimmed};

verus! {

/// Connection settings of the CLI.
#[derive(Debug, Clone)]
pub struct Config {
    pub api_key: String,
    pub api_secret: String,
    pub redirect_url: String,
    pub listen_addr: String,
    pub token_path: String,
}

/// A required setting is missing.
#[derive(Debug, Clone, Copy, PartialEq, Eq, Structural)]
pub enum ConfigError {
    /// `KITE_API_KEY` is not set.
    MissingApiKey,
    /// `KITE_API_SECRET` is not set.
    MissingApiSecret,
}

pub open spec fn or_default(v: Option<String>, default: Seq<char>) -> Seq<char> {
    match v {
        Some(s) => s@,
        None => default,
    }
}

fn value_or(v: Option<String>, default: &str) -> (r: String)
    ensures
        r@ == or_default(v, default@),
{
    match v {
        Some(s) => s,
        None => default.to_owned(),
    }
}

impl Config {
    /// The configuration from the values of `KITE_API_KEY`,
    /// `KITE_API_SECRET`, `KITE_REDIRECT_URL`, `KITE_LISTEN_ADDR` and
    /// `KITE_TOKEN_PATH` (each `None` when unset): the key and the secret
    /// are required, the others have defaults.
    pub fn from_values(
        api_key: Option<String>,
        api_secret: Option<String>,
        redirect_url: Option<String>,
        listen_addr: Option<String>,
        token_path: Option<String>,
    ) -> (r: Result<Config, ConfigError>)
        ensures
            api_key is None ==> r == Err::<Config, ConfigError>(ConfigError::MissingApiKey),
            api_key is Some && api_secret is None ==> r == Err::<Config, ConfigError>(ConfigError::MissingApiSecret),
            api_key is Some && api_secret is Some ==> (r matches Ok(c) && {
                &&& c.api_key@ == api_key->0@
                &&& c.api_secret@ == api_secret->0@
                &&& c.redirect_url@ == or_default(redirect_url, "http://127.0.0.1:7000/callback"@)
                &&& c.listen_addr@ == or_default(listen_addr, "127.0.0.1:7000"@)
                &&& c.token_path@ == or_default(token_path, "token.json"@)
            }),
    {
        let api_key = match api_key {
            Some(k) => k,
            None => return Err(ConfigError::MissingApiKey),
        };
        let api_secret = match api_secret {
            Some(s) => s,
            None => return Err(ConfigError::MissingApiSecret),
        };
        Ok(Config {
            api_key,
            api_secret,
            redirect_url: value_or(redirect_url, "http://127.0.0.1:7000/callback"),
            listen_addr: value_or(listen_addr, "127.0.0.1:7000"),
            token_path: value_or(token_path, "token.json"),
        })
    }
}

/// The access token kept between runs, with the time it was obtained
/// (seconds since the Unix epoch).
#[derive(Debug, Clone)]
pub struct StoredToken {
    pub access_token: String,
    pub created_at_unix: i64,
}

/// Seconds from the Unix epoch to now on the system clock; none when the
/// clock is set before the epoch. It depends on the clock: nothing is
/// stated of it.
#[verifier::external_body]
fn unix_time_secs() -> Option<u64> {
    std::time::SystemTime::now().duration_since(std::time::UNIX_EPOCH).ok().map(|d| d.as_secs())
}

/// Whole seconds since the epoch as the signed count stored with a token
/// (the two's-complement reading of the bits, as `as i64` gives it).
pub fn unix_secs_as_i64(secs: u64) -> (r: i64)
    ensures
        r == secs as i64,
{
    secs as i64
}

/// The current time in seconds since the Unix epoch; none when the system
/// clock is before the epoch. The value depends on the clock, so no
/// clause states it.
pub fn chrono_unix_now() -> Option<i64> {
    match unix_time_secs() {
        Some(s) => Some(unix_secs_as_i64(s)),
        None => None,
    }
}

/// Whether a safety switch (such as `LIVE_TRADING_ENABLED`) is on: only
/// the exact value `true` turns it on.
pub fn switch_on(value: Option<&str>) -> (r: bool)
    ensures
        r == (value matches Some(v) && v@ == "true"@),
{
    match value {
        Some(v) => str_eq(v, "true"),
        None => false,
    }
}

/// Values read as "yes" by a boolean setting, after trimming and ASCII
/// lowercasing.
pub open spec fn is_yes(s: Seq<char>) -> bool {
    s == "1"@ || s == "true"@ || s == "yes"@ || s == "y"@
}

/// A boolean setting: its default when unset, else whether its value is
/// one of `1`, `true`, `yes`, `y` (ignoring case and surrounding space).
pub fn flag_setting(value: Option<&str>, default: bool) -> (r: bool)
    ensures
        value is None ==> r == default,
        value matches Some(v) ==> r == is_yes(ascii_lowered(trimmed(v@))),
{
    match value {
        Some(v) => {
            let t = trim(v);
            let l = to_ascii_lowercase(t.as_str());
            let s = l.as_str();
            str_eq(s, "1") || str_eq(s, "true") || str_eq(s, "yes") || str_eq(s, "y")
        },
        None => default,
    }
}

/// The page the login callback answers with, and whether it hands the
/// request token on.
pub fn callback_reply(request_token: Option<&str>) -> (r: (&'static str, bool))
    ensures
        request_token is Some ==> r.0@ == "Login successful. You can close this tab."@ && r.1,
        request_token is None ==> r.0@ == "Missing request_token in callback URL."@ && !r.1,
{
    match request_token {
        Some(_) => ("Login successful. You can close this tab.", true),
        None => ("Missing request_token in callback URL.", false),
    }
}

} // verus!
