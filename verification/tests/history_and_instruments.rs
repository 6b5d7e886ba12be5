use std::io::Write;
use zerodha_bot_rs::history::{
    candle_local_day, close_oi_series, last_day_series, LocalTime, parse_candle_row, parse_candle_time, parse_historical,
    Candle, CandleError, CandleTime, ChartError, HistoryError,
};
use zerodha_bot_rs::instruments::{
    distinct_exchanges, earliest_expiring, find_front_month_nifty_future, find_instrument_token, first_matches,
    maybe_gunzip, GunzipError, Instrument, InstrumentFilter,
};
use zerodha_bot_rs::json::{Json, JsonNumber};
use zerodha_bot_rs::orders::ReplyError;

fn s(x: &str) -> Json {
    Json::Str(x.to_string())
}

fn n(x: u64) -> Json {
    Json::Number(JsonNumber::PosInt(x))
}

fn f(x: f64) -> Json {
    Json::Number(JsonNumber::Float(x.to_bits()))
}

fn obj(members: Vec<(&str, Json)>) -> Json {
    Json::Object(members.into_iter().map(|(k, v)| (k.to_string(), v)).collect())
}

fn row(ts: &str, close: f64, oi: Option<u64>) -> Json {
    let mut items = vec![s(ts), f(close - 1.0), f(close + 1.0), f(close - 2.0), f(close), n(1000)];
    if let Some(o) = oi {
        items.push(n(o));
    }
    Json::Array(items)
}

#[test]
fn candle_times_in_both_forms() {
    let t = parse_candle_time("2024-05-02T09:15:00+0530").unwrap();
    assert_eq!(t, CandleTime { unix_secs: 1714621500, nanos: 0, utc_offset: 19800 });
    let u = parse_candle_time("2024-05-02T09:15:00+05:30").unwrap();
    assert_eq!(u, t);
    assert_eq!(parse_candle_time("yesterday"), None);
}

#[test]
fn candle_rows_and_their_errors() {
    let c = parse_candle_row(&row("2024-05-02T09:15:00+0530", 100.0, Some(7))).unwrap();
    assert_eq!(c.close, JsonNumber::Float(100.0f64.to_bits()));
    assert_eq!(c.volume, 1000);
    assert_eq!(c.oi, Some(7));
    assert_eq!(parse_candle_row(&row("2024-05-02T09:15:00+0530", 1.0, None)).unwrap().oi, None);
    assert_eq!(parse_candle_row(&s("x")), Err(CandleError::RowNotArray));
    assert_eq!(parse_candle_row(&Json::Array(vec![n(1)])), Err(CandleError::TimeNotString));
    assert_eq!(parse_candle_row(&Json::Array(vec![s("bad")])), Err(CandleError::BadTime));
    let t = s("2024-05-02T09:15:00+0530");
    assert_eq!(parse_candle_row(&Json::Array(vec![t])), Err(CandleError::OpenMissing));
    let short = Json::Array(vec![s("2024-05-02T09:15:00+0530"), n(1), n(2), n(3), n(4)]);
    assert_eq!(parse_candle_row(&short), Err(CandleError::VolumeMissing));
    let bad_high = Json::Array(vec![s("2024-05-02T09:15:00+0530"), n(1), s("2")]);
    assert_eq!(parse_candle_row(&bad_high), Err(CandleError::HighMissing));
}

#[test]
fn historical_reply() {
    let body = obj(vec![(
        "data",
        obj(vec![(
            "candles",
            Json::Array(vec![row("2024-05-02T09:15:00+0530", 10.0, None), row("2024-05-02T09:20:00+0530", 11.0, None)]),
        )]),
    )]);
    let cs = parse_historical(200, &body).unwrap();
    assert_eq!(cs.len(), 2);
    assert_eq!(cs[1].time.unix_secs - cs[0].time.unix_secs, 300);
    assert_eq!(parse_historical(429, &body).unwrap_err(), HistoryError::Reply(ReplyError::HttpStatus(429)));
    assert_eq!(parse_historical(200, &obj(vec![])).unwrap_err(), HistoryError::MissingCandles);
    let bad = obj(vec![("data", obj(vec![("candles", Json::Array(vec![row("2024-05-02T09:15:00+0530", 1.0, None), s("x")]))]))]);
    assert_eq!(parse_historical(200, &bad).unwrap_err(), HistoryError::Row(CandleError::RowNotArray));
}

fn candle(ts: &str, close: f64, oi: Option<i64>) -> Candle {
    let mut c = parse_candle_row(&row(ts, close, None)).unwrap();
    c.oi = oi;
    c
}

#[test]
fn local_days() {
    let t = parse_candle_time("2024-05-02T00:30:00+0530").unwrap();
    assert_eq!(candle_local_day(&t), 19845);
    let early = parse_candle_time("1969-12-31T23:00:00+0000").unwrap();
    assert_eq!(candle_local_day(&early), -1);
}

#[test]
fn last_day_series_keeps_the_last_day() {
    let c5 = vec![
        candle("2024-05-02T15:25:00+0530", 1.0, None),
        candle("2024-05-03T09:15:00+0530", 2.0, None),
        candle("2024-05-03T09:20:00+0530", 3.0, None),
    ];
    let c15 = vec![candle("2024-05-02T15:15:00+0530", 4.0, None), candle("2024-05-03T09:15:00+0530", 5.0, None)];
    let c60: Vec<Candle> = vec![];
    let s = last_day_series(&c5, &c15, &c60).unwrap();
    assert_eq!(s.s5.len(), 2);
    assert_eq!(s.s15.len(), 1);
    assert_eq!(s.s60.len(), 0);
    let local = |ts: &str| {
        let t = parse_candle_time(ts).unwrap();
        LocalTime { secs: t.unix_secs as i128 + t.utc_offset as i128, nanos: t.nanos }
    };
    assert_eq!(s.min_time, local("2024-05-03T09:15:00+0530"));
    assert_eq!(s.max_time, local("2024-05-03T09:20:00+0530"));
    assert_eq!(last_day_series(&c60, &c15, &c5).unwrap_err(), ChartError::NoCandles);
}

#[test]
fn chart_times_keep_the_fraction_of_a_second() {
    let c5 = vec![
        candle("2024-05-03T09:15:00.750+05:30", 2.0, Some(5)),
        candle("2024-05-03T09:15:00.250+05:30", 3.0, Some(9)),
    ];
    let s = last_day_series(&c5, &vec![], &vec![]).unwrap();
    let secs = 1714707900i128 + 19800;
    assert_eq!(s.s5[0].time, LocalTime { secs, nanos: 750_000_000 });
    assert_eq!(s.min_time, LocalTime { secs, nanos: 250_000_000 });
    assert_eq!(s.max_time, LocalTime { secs, nanos: 750_000_000 });
    let o = close_oi_series(&c5).unwrap();
    assert_eq!(o.first_time, LocalTime { secs, nanos: 750_000_000 });
    assert_eq!(o.last_time, LocalTime { secs, nanos: 250_000_000 });
    assert_eq!(o.oi[1], (LocalTime { secs, nanos: 250_000_000 }, 9));
}

#[test]
fn close_and_oi_series() {
    let cs = vec![
        candle("2024-05-02T09:15:00+0530", 1.0, Some(50)),
        candle("2024-05-03T09:15:00+0530", 2.0, None),
        candle("2024-05-06T09:15:00+0530", 3.0, Some(20)),
    ];
    let s = close_oi_series(&cs).unwrap();
    assert_eq!(s.close.len(), 3);
    assert_eq!(s.oi.len(), 2);
    assert_eq!((s.min_oi, s.max_oi), (20, 50));
    assert!(s.first_time < s.last_time);
    assert_eq!(close_oi_series(&vec![]).unwrap_err(), ChartError::NoCandles);
    let no_oi = vec![candle("2024-05-02T09:15:00+0530", 1.0, None)];
    assert_eq!(close_oi_series(&no_oi).unwrap_err(), ChartError::NoOpenInterest);
}

fn inst(token: u64, exchange: &str, symbol: &str, name: &str, ty: &str, segment: &str, expiry: Option<i32>) -> Instrument {
    Instrument {
        instrument_token: token,
        exchange_token: token / 256,
        tradingsymbol: symbol.to_string(),
        name: name.to_string(),
        expiry,
        lot_size: 1,
        instrument_type: ty.to_string(),
        segment: segment.to_string(),
        exchange: exchange.to_string(),
    }
}

fn dump() -> Vec<Instrument> {
    vec![
        inst(408065, "NSE", "INFY", "INFOSYS", "EQ", "NSE", None),
        inst(500209, "BSE", "INFY", "INFOSYS", "EQ", "BSE", None),
        inst(11, "NFO", "NIFTY24JUNFUT", "NIFTY", "FUT", "NFO-FUT", Some(739062)),
        inst(12, "NFO", "NIFTY24MAYFUT", "NIFTY", "FUT", "NFO-FUT", Some(739034)),
        inst(13, "NFO", "NIFTY24APRFUT", "NIFTY", "FUT", "NFO-FUT", Some(739006)),
        inst(14, "NFO", "NIFTY24MAY22000CE", "NIFTY", "CE", "NFO-OPT", Some(739034)),
        inst(15, "NFO", "NIFTY24APR22000CE", "NIFTY", "CE", "NFO-OPT", Some(739006)),
        inst(16, "NFO", "NIFTY24APR22100CE", "NIFTY", "CE", "NFO-OPT", Some(739006)),
        inst(17, "NFO", "NIFTYX", "NIFTY", "CE", "NFO-OPT", None),
        inst(738561, "NSE", "RELIANCE", "RELIANCE", "EQ", "NSE", None),
    ]
}

#[test]
fn instrument_tokens_by_listing() {
    let d = dump();
    assert_eq!(find_instrument_token(&d, "NSE", "INFY"), Some(408065));
    assert_eq!(find_instrument_token(&d, "BSE", "INFY"), Some(500209));
    assert_eq!(find_instrument_token(&d, "NSE", "TCS"), None);
}

#[test]
fn front_month_future() {
    let d = dump();
    let f = find_front_month_nifty_future(&d, 739010).unwrap();
    assert_eq!(f.tradingsymbol, "NIFTY24MAYFUT");
    assert_eq!(f.instrument_token, 12);
    assert_eq!(f.expiry, "2024-05-28");
    assert_eq!(find_front_month_nifty_future(&d, 739062).map(|f| f.instrument_token), None);
    assert_eq!(find_front_month_nifty_future(&d, 0).unwrap().instrument_token, 13);
    assert!(find_front_month_nifty_future(&vec![], 739010).is_none());
    let far = vec![
        inst(21, "NFO", "NIFTYFARFUT", "NIFTY", "FUT", "NFO-FUT", Some(99_999_999)),
        inst(22, "NFO", "NIFTYNEARFUT", "NIFTY", "FUT", "NFO-FUT", Some(99_999_000)),
    ];
    assert_eq!(find_front_month_nifty_future(&far, 739010).map(|f| f.instrument_token), Some(22));
}

#[test]
fn listings_of_the_demo() {
    let d = dump();
    let nse = InstrumentFilter { exchange: "NSE", name: None, instrument_type: None, segment: Some("NSE") };
    assert_eq!(first_matches(&d, &nse, 5), vec![0, 9]);
    assert_eq!(first_matches(&d, &nse, 1), vec![0]);
    let ce = InstrumentFilter { exchange: "NFO", name: Some("NIFTY"), instrument_type: Some("CE"), segment: None };
    assert_eq!(earliest_expiring(&d, &ce, 5), vec![8, 6, 7, 5]);
    assert_eq!(earliest_expiring(&d, &ce, 2), vec![8, 6]);
    assert_eq!(earliest_expiring(&d, &ce, 0), Vec::<usize>::new());
    assert_eq!(distinct_exchanges(&d), vec!["BSE".to_string(), "NFO".to_string(), "NSE".to_string()]);
}

#[test]
fn gunzip_only_gzip_data() {
    let plain = b"instrument_token,exchange_token\n".to_vec();
    assert_eq!(maybe_gunzip(&plain).unwrap(), plain);
    let mut enc = flate2::write::GzEncoder::new(Vec::new(), flate2::Compression::default());
    enc.write_all(&plain).unwrap();
    let gz = enc.finish().unwrap();
    assert_eq!(maybe_gunzip(&gz).unwrap(), plain);
    assert_eq!(maybe_gunzip(&[0x1f, 0x8b, 0, 0]).unwrap_err(), GunzipError);
    assert_eq!(maybe_gunzip(&[0x1f]).unwrap(), vec![0x1f]);
}
