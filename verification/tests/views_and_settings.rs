use zerodha_bot_rs::account::{flatten_equity_margins, MissingEquity};
use zerodha_bot_rs::json::{Json, JsonNumber};
use zerodha_bot_rs::settings::{callback_reply, chrono_unix_now, flag_setting, switch_on, unix_secs_as_i64, Config, ConfigError};
use zerodha_bot_rs::views::{
    data_last_price_of, extract_last_price, first_total_margin, ltp_rows, ohlc_rows, order_book_rows, positions_view,
    profile_view, quote_views, session_access_token,
};

fn s(x: &str) -> Json {
    Json::Str(x.to_string())
}

fn i(x: i64) -> Json {
    if x >= 0 {
        Json::Number(JsonNumber::PosInt(x as u64))
    } else {
        Json::Number(JsonNumber::NegInt(x))
    }
}

fn f(x: f64) -> Json {
    Json::Number(JsonNumber::Float(x.to_bits()))
}

fn num(x: f64) -> Option<JsonNumber> {
    Some(JsonNumber::Float(x.to_bits()))
}

fn obj(members: Vec<(&str, Json)>) -> Json {
    Json::Object(members.into_iter().map(|(k, v)| (k.to_string(), v)).collect())
}

#[test]
fn last_price_with_or_without_data() {
    let wrapped = obj(vec![("data", obj(vec![("NSE:INFY", obj(vec![("last_price", f(1500.5))]))]))]);
    let bare = obj(vec![("NSE:INFY", obj(vec![("last_price", f(1500.5))]))]);
    assert_eq!(extract_last_price(&wrapped, "NSE:INFY"), num(1500.5));
    assert_eq!(extract_last_price(&bare, "NSE:INFY"), num(1500.5));
    assert_eq!(extract_last_price(&bare, "NSE:TCS"), None);
    assert_eq!(data_last_price_of(&wrapped, "NSE:INFY"), num(1500.5));
    assert_eq!(data_last_price_of(&bare, "NSE:INFY"), None);
}

#[test]
fn margin_total_of_first_order() {
    let v = obj(vec![("data", Json::Array(vec![obj(vec![("total", f(1234.5))]), obj(vec![("total", f(1.0))])]))]);
    assert_eq!(first_total_margin(&v), num(1234.5));
    assert_eq!(first_total_margin(&obj(vec![("data", Json::Array(vec![]))])), None);
    assert_eq!(first_total_margin(&Json::Null), None);
}

#[test]
fn session_token() {
    assert_eq!(session_access_token(&obj(vec![("access_token", s("abc"))])), Some("abc".to_string()));
    assert_eq!(session_access_token(&obj(vec![])), None);
}

#[test]
fn quote_tables() {
    let q = obj(vec![(
        "data",
        obj(vec![(
            "NSE:INFY",
            obj(vec![
                ("last_price", f(10.0)),
                ("volume", i(500)),
                ("ohlc", obj(vec![("open", f(9.0)), ("high", f(11.0)), ("low", f(8.0)), ("close", f(9.5))])),
                (
                    "depth",
                    obj(vec![
                        ("buy", Json::Array(vec![obj(vec![("price", f(9.9)), ("quantity", i(3))])])),
                        ("sell", Json::Array(vec![])),
                    ]),
                ),
            ]),
        )]),
    )]);
    let l = ltp_rows(&q);
    assert_eq!(l.len(), 1);
    assert_eq!(l[0].instrument, "NSE:INFY");
    assert_eq!(l[0].last_price, num(10.0));
    let o = ohlc_rows(&q);
    assert_eq!((o[0].open, o[0].high, o[0].low, o[0].close), (num(9.0), num(11.0), num(8.0), num(9.5)));
    let v = quote_views(&q);
    assert_eq!(v[0].volume, 500);
    assert_eq!(v[0].average_price, None);
    assert_eq!(v[0].depth.len(), 5);
    assert_eq!(v[0].depth[0].bid_price, num(9.9));
    assert_eq!(v[0].depth[0].bid_quantity, Some(3));
    assert_eq!(v[0].depth[0].ask_price, None);
    assert_eq!(v[0].depth[4].bid_price, None);
    let no_volume = obj(vec![("X", obj(vec![]))]);
    assert_eq!(quote_views(&no_volume)[0].volume, -1);
    assert!(ltp_rows(&Json::Array(vec![])).is_empty());
}

#[test]
fn positions_tables() {
    let p = obj(vec![(
        "data",
        obj(vec![
            ("net", Json::Array(vec![obj(vec![("tradingsymbol", s("INFY")), ("quantity", i(-5)), ("pnl", f(12.0))])])),
            ("day", Json::Array(vec![obj(vec![])])),
        ]),
    )]);
    let v = positions_view(&p);
    assert_eq!(v.net.len(), 1);
    assert_eq!(v.net[0].tradingsymbol, "INFY");
    assert_eq!(v.net[0].product, "-");
    assert_eq!(v.net[0].quantity, -5);
    assert_eq!(v.net[0].pnl, num(12.0));
    assert_eq!(v.day.len(), 1);
    assert_eq!(v.day[0].quantity, 0);
    let empty = positions_view(&obj(vec![]));
    assert!(empty.net.is_empty() && empty.day.is_empty());
}

#[test]
fn order_book_listing() {
    let rows: Vec<Json> = (0..25).map(|k| obj(vec![("order_id", s(&k.to_string())), ("quantity", i(k))])).collect();
    let book = obj(vec![("data", Json::Array(rows))]);
    let r = order_book_rows(&book, 20).unwrap();
    assert_eq!(r.len(), 20);
    assert_eq!(r[19].order_id, "19");
    assert_eq!(r[3].status, "-");
    assert_eq!(r[3].quantity, 3);
    assert!(order_book_rows(&obj(vec![]), 20).is_none());
}

#[test]
fn profile_fields() {
    let p = profile_view(&obj(vec![("user_name", s("Ann")), ("email", i(3))]));
    assert_eq!(p.user_name, "Ann");
    assert_eq!(p.email, "-");
    assert_eq!(p.broker, "-");
}

#[test]
fn flatten_margins_row() {
    let m = obj(vec![(
        "equity",
        obj(vec![
            ("enabled", Json::Bool(true)),
            ("net", f(100.0)),
            ("available", obj(vec![("cash", f(90.0)), ("collateral", i(0))])),
            ("utilised", obj(vec![("debits", f(10.0))])),
        ]),
    )]);
    let row = flatten_equity_margins(&m).unwrap();
    let keys: Vec<String> = row.iter().map(|(k, _)| k.clone()).collect();
    assert_eq!(keys, vec!["available_cash", "available_collateral", "enabled", "net", "utilised_debits"]);
    let cash = row.iter().find(|(k, _)| k == "available_cash").unwrap().1;
    assert!(matches!(cash, Json::Number(JsonNumber::Float(b)) if *b == 90.0f64.to_bits()));
    assert_eq!(flatten_equity_margins(&obj(vec![])).unwrap_err(), MissingEquity);
}

#[test]
fn flatten_later_entry_wins() {
    let m = obj(vec![(
        "equity",
        obj(vec![("available", obj(vec![("x", i(1))])), ("utilised", obj(vec![("x", i(2))]))]),
    )]);
    let row = flatten_equity_margins(&m).unwrap();
    assert_eq!(row.len(), 2);
}

#[test]
fn config_defaults_and_errors() {
    let c = Config::from_values(Some("k".into()), Some("s".into()), None, None, None).unwrap();
    assert_eq!(c.redirect_url, "http://127.0.0.1:7000/callback");
    assert_eq!(c.listen_addr, "127.0.0.1:7000");
    assert_eq!(c.token_path, "token.json");
    let c = Config::from_values(Some("k".into()), Some("s".into()), None, None, Some("t.json".into())).unwrap();
    assert_eq!(c.token_path, "t.json");
    assert_eq!(Config::from_values(None, Some("s".into()), None, None, None).unwrap_err(), ConfigError::MissingApiKey);
    assert_eq!(Config::from_values(Some("k".into()), None, None, None, None).unwrap_err(), ConfigError::MissingApiSecret);
}

#[test]
fn switches_and_flags() {
    assert!(switch_on(Some("true")));
    assert!(!switch_on(Some("TRUE")));
    assert!(!switch_on(None));
    assert!(flag_setting(Some(" Yes "), false));
    assert!(flag_setting(Some("1"), false));
    assert!(!flag_setting(Some("no"), true));
    assert!(flag_setting(None, true));
}

#[test]
fn callback_and_clock() {
    assert_eq!(callback_reply(Some("rt")), ("Login successful. You can close this tab.", true));
    assert_eq!(callback_reply(None), ("Missing request_token in callback URL.", false));
    assert_eq!(unix_secs_as_i64(u64::MAX), -1);
    assert!(chrono_unix_now().unwrap() > 1_600_000_000);
}
