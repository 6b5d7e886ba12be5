//! Addresses and headers of the Kite Connect REST API.
use vstd::prelude::*;
use vstd::string::StringExecFns;
use crate::text::{decimal, push_decimal};

verus! {

pub open spec fn api_root() -> Seq<char> {
    "https://api.kite.trade"@
}

/// The `Authorization` header value: `token <api_key>:<access_token>`.
pub fn authorization_header(api_key: &str, access_token: &str) -> (r: String)
    ensures
        r@ == "token "@ + api_key@ + ":"@ + access_token@,
{
    let mut r = String::from_str("token ");
    r.append(api_key);
    r.append(":");
    r.append(access_token);
    r
}

/// `POST /orders/:variety`
pub fn orders_url(variety: &str) -> (r: String)
    ensures
        r@ == api_root() + "/orders/"@ + variety@,
{
    let mut r = String::from_str("https://api.kite.trade");
    r.append("/orders/");
    r.append(variety);
    r
}

/// `PUT` / `DELETE /orders/:variety/:order_id`
pub fn order_url(variety: &str, order_id: &str) -> (r: String)
    ensures
        r@ == api_root() + "/orders/"@ + variety@ + "/"@ + order_id@,
{
    let mut r = orders_url(variety);
    r.append("/");
    r.append(order_id);
    r
}

/// `GET /orders/:order_id` (the history of one order)
pub fn order_history_url(order_id: &str) -> (r: String)
    ensures
        r@ == api_root() + "/orders/"@ + order_id@,
{
    orders_url(order_id)
}

/// `GET /instruments/historical/:instrument_token/:interval`
pub fn historical_url(instrument_token: u64, interval: &str) -> (r: String)
    ensures
        r@ == api_root() + "/instruments/historical/"@ + decimal(instrument_token as nat) + "/"@
            + interval@,
{
    let mut r = String::from_str("https://api.kite.trade");
    r.append("/instruments/historical/");
    push_decimal(&mut r, instrument_token);
    r.append("/");
    r.append(interval);
    r
}

/// `GET /instruments` or `GET /instruments/:exchange`
pub fn instruments_url(exchange: Option<&str>) -> (r: String)
    ensures
        r@ == match exchange {
            Some(ex) => api_root() + "/instruments/"@ + ex@,
            None => api_root() + "/instruments"@,
        },
{
    let mut r = String::from_str("https://api.kite.trade");
    match exchange {
        Some(ex) => {
            r.append("/instruments/");
            r.append(ex);
        },
        None => {
            r.append("/instruments");
        },
    }
    r
}

pub open spec fn flag_text(b: bool) -> Seq<char> {
    if b {
        "1"@
    } else {
        "0"@
    }
}

/// Query of a historical-candles request; the times are given already in
/// the API's `YYYY-MM-DD HH:MM:SS` form.
pub fn historical_query(from: &str, to: &str, continuous: bool, oi: bool) -> (q: Vec<(&'static str, String)>)
    ensures
        q@.len() == 4,
        q@[0].0@ == "from"@ && q@[0].1@ == from@,
        q@[1].0@ == "to"@ && q@[1].1@ == to@,
        q@[2].0@ == "continuous"@ && q@[2].1@ == flag_text(continuous),
        q@[3].0@ == "oi"@ && q@[3].1@ == flag_text(oi),
{
    let mut q: Vec<(&'static str, String)> = Vec::new();
    q.push(("from", String::from_str(from)));
    q.push(("to", String::from_str(to)));
    q.push(("continuous", String::from_str(if continuous { "1" } else { "0" })));
    q.push(("oi", String::from_str(if oi { "1" } else { "0" })));
    q
}

/// The session endpoint, which a logout is sent to.
pub open spec fn session_token_base() -> Seq<char> {
    api_root() + "/session/token"@
}

/// The text of name/value pairs.
pub open spec fn pairs_view(pairs: Seq<(&str, &str)>) -> Seq<(Seq<char>, Seq<char>)> {
    pairs.map_values(|p: (&str, &str)| (p.0@, p.1@))
}

/// `base` parsed as a URL, with the name/value pairs appended in order to
/// its query, each form-encoded, then serialized; none when `base` is not
/// a URL.
pub uninterp spec fn url_with_query_text(base: Seq<char>, pairs: Seq<(Seq<char>, Seq<char>)>) -> Option<Seq<char>>;

/// `url::Url::parse(base)`, then `query_pairs_mut().extend_pairs(pairs)`
/// (which calls `append_pair` for each pair in order), then `to_string`;
/// the result is named by `url_with_query_text`.
#[verifier::external_body]
fn url_with_query(base: &str, pairs: &[(&str, &str)]) -> (r: Option<String>)
    ensures
        r matches Some(u) ==> url_with_query_text(base@, pairs_view(pairs@)) == Some(u@),
        r is None ==> url_with_query_text(base@, pairs_view(pairs@)) is None,
{
    let mut url = url::Url::parse(base).ok()?;
    url.query_pairs_mut().extend_pairs(pairs.iter());
    Some(url.to_string())
}

/// The query of a logout: the API key, then the access token.
pub open spec fn logout_pairs(api_key: Seq<char>, access_token: Seq<char>) -> Seq<(Seq<char>, Seq<char>)> {
    seq![("api_key"@, api_key), ("access_token"@, access_token)]
}

/// The address a logout request is sent to: the session endpoint with the
/// API key and the access token in its query (none if the `url` crate
/// refused the endpoint).
pub fn logout_url(api_key: &str, access_token: &str) -> (r: Option<String>)
    ensures
        r matches Some(u) ==> url_with_query_text(session_token_base(), logout_pairs(api_key@, access_token@))
            == Some(u@),
        r is None ==> url_with_query_text(session_token_base(), logout_pairs(api_key@, access_token@)) is None,
{
    let mut base = String::from_str("https://api.kite.trade");
    base.append("/session/token");
    assert(base@ == session_token_base());
    let pairs: Vec<(&str, &str)> = vec![("api_key", api_key), ("access_token", access_token)];
    assert(pairs_view(pairs@) =~= logout_pairs(api_key@, access_token@));
    url_with_query(base.as_str(), pairs.as_slice())
}

} // verus!
