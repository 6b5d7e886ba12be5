use zerodha_bot_rs::endpoints::{
    authorization_header, historical_query, historical_url, instruments_url, logout_url, order_history_url,
    order_url, orders_url,
};
use zerodha_bot_rs::json::{Json, JsonNumber};
use zerodha_bot_rs::orders::{
    acknowledged_order_id, check_status, extract_order_status, final_status, gtt_trigger_id,
    iceberg_leg_quantity, limit_order_form, market_order_form, placed_order_id, regular_order_form,
    amo_limit_order_form, cover_order_form, iceberg_limit_buy_form, poll_step, sl_exit_sell_form, slm_exit_sell_form,
    variety_order_form, OrderType, PollStep, ReplyError, Side,
};
use zerodha_bot_rs::portfolio::{gtt_form, ConvertPositionParams};

fn s(x: &str) -> Json {
    Json::Str(x.to_string())
}

fn obj(members: Vec<(&str, Json)>) -> Json {
    Json::Object(members.into_iter().map(|(k, v)| (k.to_string(), v)).collect())
}

fn pairs(f: &[(&'static str, String)]) -> Vec<(String, String)> {
    f.iter().map(|(k, v)| (k.to_string(), v.clone())).collect()
}

fn expect(list: &[(&str, &str)]) -> Vec<(String, String)> {
    list.iter().map(|(k, v)| (k.to_string(), v.to_string())).collect()
}

#[test]
fn order_type_and_side_names() {
    assert_eq!(OrderType::Market.as_str(), "MARKET");
    assert_eq!(OrderType::Limit.as_str(), "LIMIT");
    assert_eq!(OrderType::Sl.as_str(), "SL");
    assert_eq!(OrderType::Slm.as_str(), "SL-M");
    assert_eq!(Side::Buy.as_str(), "BUY");
    assert_eq!(Side::Sell.as_str(), "SELL");
}

#[test]
fn market_order_form_fields() {
    let f = market_order_form("NSE", "INFY", Side::Buy, 1, "CNC", None);
    assert_eq!(
        pairs(&f),
        expect(&[
            ("tradingsymbol", "INFY"),
            ("exchange", "NSE"),
            ("transaction_type", "BUY"),
            ("order_type", "MARKET"),
            ("quantity", "1"),
            ("product", "CNC"),
            ("validity", "DAY"),
        ])
    );
    let f = market_order_form("NSE", "INFY", Side::Sell, 25, "MIS", Some("bot"));
    assert_eq!(f.last().unwrap(), &("tag", "bot".to_string()));
    assert_eq!(f[4].1, "25");
}

#[test]
fn stop_loss_market_exit_form() {
    let f = regular_order_form("NSE", "INFY", Side::Sell, 10, "MIS", OrderType::Slm, Some("0"), Some("1540"), None);
    assert_eq!(
        pairs(&f),
        expect(&[
            ("tradingsymbol", "INFY"),
            ("exchange", "NSE"),
            ("transaction_type", "SELL"),
            ("quantity", "10"),
            ("product", "MIS"),
            ("order_type", "SL-M"),
            ("validity", "DAY"),
            ("price", "0"),
            ("trigger_price", "1540"),
        ])
    );
}

#[test]
fn limit_order_form_fields() {
    let f = limit_order_form("NSE", "INFY", Side::Buy, 1, "CNC", "1404.5", Some("t1"));
    assert_eq!(
        pairs(&f),
        expect(&[
            ("tradingsymbol", "INFY"),
            ("exchange", "NSE"),
            ("transaction_type", "BUY"),
            ("order_type", "LIMIT"),
            ("quantity", "1"),
            ("product", "CNC"),
            ("price", "1404.5"),
            ("validity", "DAY"),
            ("tag", "t1"),
        ])
    );
}

#[test]
fn iceberg_order_form_fields() {
    let legs = 4;
    let q = iceberg_leg_quantity(2000, legs);
    assert_eq!(q, 500);
    let f = variety_order_form("NSE", "ITC", Side::Buy, 2000, "CNC", OrderType::Limit, Some("435"), None, Some("DAY"), Some(legs), Some(q), None);
    assert_eq!(
        pairs(&f),
        expect(&[
            ("tradingsymbol", "ITC"),
            ("exchange", "NSE"),
            ("transaction_type", "BUY"),
            ("order_type", "LIMIT"),
            ("quantity", "2000"),
            ("product", "CNC"),
            ("validity", "DAY"),
            ("price", "435"),
            ("iceberg_legs", "4"),
            ("iceberg_quantity", "500"),
        ])
    );
    assert_eq!(iceberg_leg_quantity(10, 3), 3);
}

#[test]
fn variety_form_defaults_validity() {
    let f = variety_order_form("NSE", "X", Side::Sell, 1, "MIS", OrderType::Market, None, None, None, None, None, None);
    assert_eq!(f[6], ("validity", "DAY".to_string()));
    assert_eq!(f.len(), 7);
}

#[test]
fn convert_and_gtt_forms() {
    let p = ConvertPositionParams {
        exchange: "NSE",
        tradingsymbol: "INFY",
        transaction_type: "BUY",
        position_type: "day",
        quantity: 3,
        old_product: "MIS",
        new_product: "CNC",
    };
    assert_eq!(
        pairs(&p.form()),
        expect(&[
            ("exchange", "NSE"),
            ("tradingsymbol", "INFY"),
            ("transaction_type", "BUY"),
            ("position_type", "day"),
            ("quantity", "3"),
            ("old_product", "MIS"),
            ("new_product", "CNC"),
        ])
    );
    let g = gtt_form("single", "{}".to_string(), "[]".to_string());
    assert_eq!(pairs(&g), expect(&[("type", "single"), ("condition", "{}"), ("orders", "[]")]));
}

#[test]
fn placed_order_id_cases() {
    let ok = obj(vec![("status", s("success")), ("data", obj(vec![("order_id", s("151220000000000"))]))]);
    assert_eq!(placed_order_id(200, &ok), Ok("151220000000000".to_string()));
    assert_eq!(placed_order_id(403, &ok), Err(ReplyError::HttpStatus(403)));
    let missing = obj(vec![("data", obj(vec![]))]);
    assert_eq!(placed_order_id(200, &missing), Err(ReplyError::Missing("data.order_id")));
    let numeric = obj(vec![("data", obj(vec![("order_id", Json::Number(JsonNumber::PosInt(5)))]))]);
    assert_eq!(placed_order_id(200, &numeric), Err(ReplyError::Missing("data.order_id")));
}

#[test]
fn acknowledged_order_id_falls_back() {
    let empty = obj(vec![]);
    assert_eq!(acknowledged_order_id(200, &empty, "42"), Ok("42".to_string()));
    let ok = obj(vec![("data", obj(vec![("order_id", s("43"))]))]);
    assert_eq!(acknowledged_order_id(200, &ok, "42"), Ok("43".to_string()));
    assert_eq!(acknowledged_order_id(500, &ok, "42"), Err(ReplyError::HttpStatus(500)));
}

#[test]
fn gtt_trigger_id_cases() {
    let ok = obj(vec![("data", obj(vec![("trigger_id", Json::Number(JsonNumber::PosInt(123)))]))]);
    assert_eq!(gtt_trigger_id(200, &ok), Ok(123));
    let neg = obj(vec![("data", obj(vec![("trigger_id", Json::Number(JsonNumber::NegInt(-1)))]))]);
    assert_eq!(gtt_trigger_id(200, &neg), Err(ReplyError::Missing("data.trigger_id")));
    assert_eq!(gtt_trigger_id(199, &ok), Err(ReplyError::HttpStatus(199)));
}

#[test]
fn status_check_bounds() {
    assert!(check_status(200).is_ok());
    assert!(check_status(299).is_ok());
    assert_eq!(check_status(300), Err(ReplyError::HttpStatus(300)));
}

#[test]
fn order_status_is_the_last_row() {
    let h = obj(vec![(
        "data",
        Json::Array(vec![obj(vec![("status", s("OPEN"))]), obj(vec![("status", s("COMPLETE"))])]),
    )]);
    assert_eq!(extract_order_status(&h), Some("COMPLETE".to_string()));
    let bare = Json::Array(vec![obj(vec![("status", s("REJECTED"))])]);
    assert_eq!(extract_order_status(&bare), Some("REJECTED".to_string()));
    assert_eq!(extract_order_status(&Json::Array(vec![])), None);
    assert_eq!(extract_order_status(&obj(vec![])), None);
    assert!(final_status("COMPLETE") && final_status("REJECTED") && final_status("CANCELLED"));
    assert!(!final_status("OPEN"));
}

#[test]
fn endpoint_addresses() {
    assert_eq!(authorization_header("key", "tok"), "token key:tok");
    assert_eq!(orders_url("regular"), "https://api.kite.trade/orders/regular");
    assert_eq!(order_url("regular", "9"), "https://api.kite.trade/orders/regular/9");
    assert_eq!(order_history_url("9"), "https://api.kite.trade/orders/9");
    assert_eq!(historical_url(256265, "day"), "https://api.kite.trade/instruments/historical/256265/day");
    assert_eq!(instruments_url(None), "https://api.kite.trade/instruments");
    assert_eq!(instruments_url(Some("NSE")), "https://api.kite.trade/instruments/NSE");
    let q = historical_query("2024-05-01 00:00:00", "2024-05-31 23:59:59", true, false);
    assert_eq!(
        pairs(&q),
        expect(&[("from", "2024-05-01 00:00:00"), ("to", "2024-05-31 23:59:59"), ("continuous", "1"), ("oi", "0")])
    );
}

#[test]
fn logout_address_encodes_values() {
    assert_eq!(
        logout_url("ab c", "x&y").unwrap(),
        "https://api.kite.trade/session/token?api_key=ab+c&access_token=x%26y"
    );
}

#[test]
fn order_polling_steps() {
    assert_eq!(poll_step(1, "COMPLETE"), PollStep::Done);
    assert_eq!(poll_step(10, "REJECTED"), PollStep::Done);
    assert_eq!(poll_step(1, "OPEN"), PollStep::WaitAndPoll);
    assert_eq!(poll_step(9, "UNKNOWN"), PollStep::WaitAndPoll);
    assert_eq!(poll_step(10, "OPEN"), PollStep::WaitAndStop);
}

#[test]
fn exit_and_variety_order_builders() {
    let f = slm_exit_sell_form("NSE", "INFY", 10, "MIS", "1540", None);
    assert_eq!(
        pairs(&f),
        expect(&[
            ("tradingsymbol", "INFY"),
            ("exchange", "NSE"),
            ("transaction_type", "SELL"),
            ("quantity", "10"),
            ("product", "MIS"),
            ("order_type", "SL-M"),
            ("validity", "DAY"),
            ("price", "0"),
            ("trigger_price", "1540"),
        ])
    );
    let f = sl_exit_sell_form("NSE", "INFY", 10, "MIS", "1540", "1539.5", Some("t"));
    assert_eq!(
        pairs(&f),
        expect(&[
            ("tradingsymbol", "INFY"),
            ("exchange", "NSE"),
            ("transaction_type", "SELL"),
            ("quantity", "10"),
            ("product", "MIS"),
            ("order_type", "SL"),
            ("validity", "DAY"),
            ("price", "1539.5"),
            ("trigger_price", "1540"),
            ("tag", "t"),
        ])
    );
    let (v, f) = cover_order_form("NSE", "TATAMOTORS", 10, "MIS", "650", None);
    assert_eq!(v, "co");
    assert_eq!(
        pairs(&f),
        expect(&[
            ("tradingsymbol", "TATAMOTORS"),
            ("exchange", "NSE"),
            ("transaction_type", "BUY"),
            ("order_type", "MARKET"),
            ("quantity", "10"),
            ("product", "MIS"),
            ("validity", "DAY"),
            ("price", "0"),
            ("trigger_price", "650"),
        ])
    );
    let (v, f) = amo_limit_order_form("NSE", "INFY", Side::Buy, 5, "CNC", "1600", None);
    assert_eq!(v, "amo");
    assert_eq!(
        pairs(&f),
        expect(&[
            ("tradingsymbol", "INFY"),
            ("exchange", "NSE"),
            ("transaction_type", "BUY"),
            ("order_type", "LIMIT"),
            ("quantity", "5"),
            ("product", "CNC"),
            ("validity", "DAY"),
            ("price", "1600"),
        ])
    );
    let (v, f) = iceberg_limit_buy_form("NSE", "ITC", 2000, "CNC", "435", 4, 500, None);
    assert_eq!(v, "iceberg");
    assert_eq!(pairs(&f).len(), 10);
    assert_eq!(pairs(&f)[8], ("iceberg_legs".to_string(), "4".to_string()));
}
