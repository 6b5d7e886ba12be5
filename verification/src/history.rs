//! Historical candles: reading them from the API's reply, and the series
//! that the charts of the CLI are drawn from.
use vstd::prelude::*;
use crate::json::{Json, JsonNumber};
use crate::orders::{success_status, ReplyError, check_status};

verus! {

/// An instant as a candle carries it: seconds and nanoseconds since the
/// Unix epoch (UTC) and the offset, in seconds, of the exchange's clock.
#[derive(Debug, Clone, Copy, PartialEq, Eq, Structural)]
pub struct CandleTime {
    pub unix_secs: i64,
    pub nanos: u32,
    pub utc_offset: i32,
}

/// One OHLC candle. Prices are the numbers of the reply, as the API gave
/// them.
#[derive(Debug, Clone, Copy, PartialEq, Eq, Structural)]
pub struct Candle {
    pub time: CandleTime,
    pub open: JsonNumber,
    pub high: JsonNumber,
    pub low: JsonNumber,
    pub close: JsonNumber,
    pub volume: i64,
    pub oi: Option<i64>,
}

/// The instant that `DateTime::parse_from_rfc3339` reads from a text.
pub uninterp spec fn rfc3339_instant(s: Seq<char>) -> Option<CandleTime>;

/// The instant that `DateTime::parse_from_str` reads from a text in a
/// given strftime-style format.
pub uninterp spec fn zoned_instant(s: Seq<char>, fmt: Seq<char>) -> Option<CandleTime>;

/// `chrono::DateTime::parse_from_rfc3339`; its result is named by
/// `rfc3339_instant`. The offset of a parsed time lies strictly within one
/// day, as `FixedOffset` keeps it.
#[verifier::external_body]
fn parse_rfc3339(s: &str) -> (r: Option<CandleTime>)
    ensures
        r == rfc3339_instant(s@),
        r matches Some(t) ==> -86400 < t.utc_offset < 86400 && t.nanos < 2_000_000_000,
{
    chrono::DateTime::parse_from_rfc3339(s).ok().map(
        |d| CandleTime { unix_secs: d.timestamp(), nanos: d.timestamp_subsec_nanos(), utc_offset: d.offset().local_minus_utc() },
    )
}

/// `chrono::DateTime::parse_from_str(s, fmt)`; its result is named by
/// `zoned_instant`. As for RFC 3339, the offset lies strictly within one
/// day and the fraction of a second below two seconds.
#[verifier::external_body]
fn parse_zoned(s: &str, fmt: &str) -> (r: Option<CandleTime>)
    ensures
        r == zoned_instant(s@, fmt@),
        r matches Some(t) ==> -86400 < t.utc_offset < 86400 && t.nanos < 2_000_000_000,
{
    chrono::DateTime::parse_from_str(s, fmt).ok().map(
        |d| CandleTime { unix_secs: d.timestamp(), nanos: d.timestamp_subsec_nanos(), utc_offset: d.offset().local_minus_utc() },
    )
}

/// The compact zone form of a candle timestamp, such as
/// `2024-05-02T09:15:00+0530`.
pub open spec fn compact_zone_format() -> Seq<char> {
    "%Y-%m-%dT%H:%M:%S%z"@
}

/// A candle timestamp: RFC 3339 first, else the compact zone form.
pub open spec fn candle_instant(s: Seq<char>) -> Option<CandleTime> {
    match rfc3339_instant(s) {
        Some(t) => Some(t),
        None => zoned_instant(s, compact_zone_format()),
    }
}

pub fn parse_candle_time(s: &str) -> (r: Option<CandleTime>)
    ensures
        r == candle_instant(s@),
{
    match parse_rfc3339(s) {
        Some(t) => Some(t),
        None => parse_zoned(s, "%Y-%m-%dT%H:%M:%S%z"),
    }
}

/// Why a candle row was refused.
#[derive(Debug, Clone, Copy, PartialEq, Eq, Structural)]
pub enum CandleError {
    RowNotArray,
    TimeNotString,
    BadTime,
    OpenMissing,
    HighMissing,
    LowMissing,
    CloseMissing,
    VolumeMissing,
}

pub open spec fn item_at(a: Seq<Json>, i: int) -> Option<Json> {
    if 0 <= i < a.len() {
        Some(a[i])
    } else {
        None
    }
}

pub open spec fn number_at(a: Seq<Json>, i: int) -> Option<JsonNumber> {
    match item_at(a, i) {
        Some(v) => v.number_value(),
        None => None,
    }
}

pub open spec fn i64_at(a: Seq<Json>, i: int) -> Option<i64> {
    match item_at(a, i) {
        Some(v) => v.i64_value(),
        None => None,
    }
}

/// A row `[time, open, high, low, close, volume, (oi)]` as a candle.
pub open spec fn candle_of_row(row: Json) -> Result<Candle, CandleError> {
    match row.array_items() {
        None => Err(CandleError::RowNotArray),
        Some(a) => match (match item_at(a, 0) { Some(v) => v.str_value(), None => None }) {
            None => Err(CandleError::TimeNotString),
            Some(ts) => match candle_instant(ts) {
                None => Err(CandleError::BadTime),
                Some(time) => match number_at(a, 1) {
                    None => Err(CandleError::OpenMissing),
                    Some(open) => match number_at(a, 2) {
                        None => Err(CandleError::HighMissing),
                        Some(high) => match number_at(a, 3) {
                            None => Err(CandleError::LowMissing),
                            Some(low) => match number_at(a, 4) {
                                None => Err(CandleError::CloseMissing),
                                Some(close) => match i64_at(a, 5) {
                                    None => Err(CandleError::VolumeMissing),
                                    Some(volume) => Ok(
                                        Candle { time, open, high, low, close, volume, oi: i64_at(a, 6) },
                                    ),
                                },
                            },
                        },
                    },
                },
            },
        },
    }
}

fn number_item(a: &Vec<Json>, i: usize) -> (r: Option<JsonNumber>)
    ensures
        r == number_at(a@, i as int),
{
    if i < a.len() {
        a[i].as_number()
    } else {
        None
    }
}

fn i64_item(a: &Vec<Json>, i: usize) -> (r: Option<i64>)
    ensures
        r == i64_at(a@, i as int),
{
    if i < a.len() {
        a[i].as_i64()
    } else {
        None
    }
}

/// A parsed row `[time, open, high, low, close, volume, (oi)]` read
/// position by position: the time from the text at 0, open, high, low and
/// close from the numbers at 1 to 4, the volume from the integer at 5, and
/// the open interest from the integer at 6 when there is one.
pub open spec fn candle_read_from(c: Candle, row: Json) -> bool {
    &&& row.array_items() is Some
    &&& row.array_items()->0.len() >= 6
    &&& row.array_items()->0[0].str_value() is Some
    &&& candle_instant(row.array_items()->0[0].str_value()->0) == Some(c.time)
    &&& row.array_items()->0[1].number_value() == Some(c.open)
    &&& row.array_items()->0[2].number_value() == Some(c.high)
    &&& row.array_items()->0[3].number_value() == Some(c.low)
    &&& row.array_items()->0[4].number_value() == Some(c.close)
    &&& row.array_items()->0[5].i64_value() == Some(c.volume)
    &&& c.oi == (if row.array_items()->0.len() > 6 {
        row.array_items()->0[6].i64_value()
    } else {
        None
    })
}

/// Every candle read from a row takes each of its fields from the row's
/// position for it: the high is the number at index 2, the low the number
/// at index 3, and so on.
pub proof fn lemma_candle_fields_by_position(row: Json)
    ensures
        candle_of_row(row) matches Ok(c) ==> candle_read_from(c, row),
{
}

pub fn parse_candle_row(row: &Json) -> (r: Result<Candle, CandleError>)
    ensures
        r == candle_of_row(*row),
        r matches Ok(c) ==> candle_read_from(c, *row),
{
    let a = match row.as_array() {
        Some(a) => a,
        None => return Err(CandleError::RowNotArray),
    };
    let ts = if a.len() > 0 {
        a[0].as_str()
    } else {
        None
    };
    let ts = match ts {
        Some(t) => t,
        None => return Err(CandleError::TimeNotString),
    };
    let time = match parse_candle_time(ts) {
        Some(t) => t,
        None => return Err(CandleError::BadTime),
    };
    let open = match number_item(a, 1) {
        Some(x) => x,
        None => return Err(CandleError::OpenMissing),
    };
    let high = match number_item(a, 2) {
        Some(x) => x,
        None => return Err(CandleError::HighMissing),
    };
    let low = match number_item(a, 3) {
        Some(x) => x,
        None => return Err(CandleError::LowMissing),
    };
    let close = match number_item(a, 4) {
        Some(x) => x,
        None => return Err(CandleError::CloseMissing),
    };
    let volume = match i64_item(a, 5) {
        Some(x) => x,
        None => return Err(CandleError::VolumeMissing),
    };
    let oi = i64_item(a, 6);
    Ok(Candle { time, open, high, low, close, volume, oi })
}

/// Why a historical reply was refused.
#[derive(Debug, PartialEq, Eq)]
pub enum HistoryError {
    Reply(ReplyError),
    /// The reply has no `data.candles` array.
    MissingCandles,
    /// A candle row was malformed.
    Row(CandleError),
}

/// The rows read in order; the first malformed one is the error.
pub open spec fn candles_of_rows(rows: Seq<Json>) -> Result<Seq<Candle>, CandleError>
    decreases rows.len(),
{
    if rows.len() == 0 {
        Ok(Seq::empty())
    } else {
        match candles_of_rows(rows.drop_last()) {
            Err(e) => Err(e),
            Ok(cs) => match candle_of_row(rows.last()) {
                Err(e) => Err(e),
                Ok(c) => Ok(cs.push(c)),
            },
        }
    }
}

/// `data.candles` of a reply.
pub open spec fn candle_rows(body: Json) -> Option<Seq<Json>> {
    match body.field("data"@) {
        Some(d) => match d.field("candles"@) {
            Some(c) => c.array_items(),
            None => None,
        },
        None => None,
    }
}

proof fn lemma_candles_err_sticks(rows: Seq<Json>, k: int, e: CandleError)
    requires
        0 <= k <= rows.len(),
        candles_of_rows(rows.take(k)) == Err::<Seq<Candle>, CandleError>(e),
    ensures
        candles_of_rows(rows) == Err::<Seq<Candle>, CandleError>(e),
    decreases rows.len() - k,
{
    if k < rows.len() {
        assert(rows.take(k + 1).drop_last() =~= rows.take(k));
        lemma_candles_err_sticks(rows, k + 1, e);
    } else {
        assert(rows.take(k) =~= rows);
    }
}

/// The candles of a historical-data reply.
pub fn parse_historical(status: u16, body: &Json) -> (r: Result<Vec<Candle>, HistoryError>)
    ensures
        !success_status(status) ==> r == Err::<Vec<Candle>, HistoryError>(
            HistoryError::Reply(ReplyError::HttpStatus(status)),
        ),
        success_status(status) ==> match candle_rows(*body) {
            None => r == Err::<Vec<Candle>, HistoryError>(HistoryError::MissingCandles),
            Some(rows) => match candles_of_rows(rows) {
                Ok(cs) => r matches Ok(v) && v@ == cs,
                Err(e) => r == Err::<Vec<Candle>, HistoryError>(HistoryError::Row(e)),
            },
        },
{
    match check_status(status) {
        Ok(()) => {},
        Err(e) => return Err(HistoryError::Reply(e)),
    }
    let candles = match body.get("data") {
        Some(d) => match d.get("candles") {
            Some(c) => c.as_array(),
            None => None,
        },
        None => None,
    };
    let rows = match candles {
        Some(rows) => rows,
        None => return Err(HistoryError::MissingCandles),
    };
    let mut out: Vec<Candle> = Vec::new();
    let mut i: usize = 0;
    assert(rows@.take(0) =~= Seq::<Json>::empty());
    while i < rows.len()
        invariant
            i <= rows@.len(),
            success_status(status),
            candle_rows(*body) == Some(rows@),
            candles_of_rows(rows@.take(i as int)) == Ok::<Seq<Candle>, CandleError>(out@),
        decreases rows@.len() - i,
    {
        assert(rows@.take(i + 1).drop_last() =~= rows@.take(i as int));
        match parse_candle_row(&rows[i]) {
            Ok(c) => out.push(c),
            Err(e) => {
                proof {
                    lemma_candles_err_sticks(rows@, i + 1, e);
                }
                return Err(HistoryError::Row(e));
            },
        }
        i = i + 1;
    }
    assert(rows@.take(i as int) =~= rows@);
    Ok(out)
}

pub const SECONDS_PER_DAY: i128 = 86400;

/// Seconds since the epoch on the exchange's local clock.
pub open spec fn local_seconds(t: CandleTime) -> int {
    t.unix_secs + t.utc_offset
}

/// The local calendar day of an instant, counted in days since 1970-01-01.
pub open spec fn local_day(t: CandleTime) -> int {
    local_seconds(t) / 86400
}

pub fn candle_local_seconds(t: &CandleTime) -> (r: i128)
    ensures
        r == local_seconds(*t),
{
    t.unix_secs as i128 + t.utc_offset as i128
}

pub fn candle_local_day(t: &CandleTime) -> (r: i128)
    ensures
        r == local_day(*t),
{
    let x = t.unix_secs as i128 + t.utc_offset as i128;
    if x >= 0 {
        let q = x / 86400;
        assert(q == x / 86400);
        q
    } else {
        let y = -x - 1;
        let q = y / 86400;
        proof {
            let d = (x as int) / 86400;
            let r = (x as int) % 86400;
            vstd::arithmetic::div_mod::lemma_fundamental_div_mod(x as int, 86400);
            vstd::arithmetic::div_mod::lemma_fundamental_div_mod(y as int, 86400);
            assert(-q - 1 == d) by (nonlinear_arith)
                requires
                    x == 86400 * d + r,
                    0 <= r < 86400,
                    y == -x - 1,
                    y == 86400 * q + (y % 86400),
                    0 <= y % 86400 < 86400,
                    x < 0,
            ;
        }
        -q - 1
    }
}

/// A time on the exchange's local clock: whole seconds since the epoch and
/// the fraction of the second in nanoseconds (1e9 and above during a leap
/// second), ordered as `NaiveDateTime` orders them: by seconds, then by
/// the fraction.
#[derive(Debug, Clone, Copy, PartialEq, Eq, PartialOrd, Ord, Structural)]
pub struct LocalTime {
    pub secs: i128,
    pub nanos: u32,
}

/// The local time of an instant, fraction of the second included.
pub open spec fn local_time(t: CandleTime) -> LocalTime {
    LocalTime { secs: local_seconds(t) as i128, nanos: t.nanos }
}

/// Strictly earlier on the local clock.
pub open spec fn time_before(a: LocalTime, b: LocalTime) -> bool {
    a.secs < b.secs || (a.secs == b.secs && a.nanos < b.nanos)
}

fn candle_local_time(t: &CandleTime) -> (r: LocalTime)
    ensures
        r == local_time(*t),
{
    LocalTime { secs: candle_local_seconds(t), nanos: t.nanos }
}

fn earlier(a: LocalTime, b: LocalTime) -> (r: bool)
    ensures
        r == time_before(a, b),
{
    a.secs < b.secs || (a.secs == b.secs && a.nanos < b.nanos)
}

/// A point of a chart: the candle's local time and its close.
#[derive(Debug, Clone, Copy, PartialEq, Eq, Structural)]
pub struct ClosePoint {
    pub time: LocalTime,
    pub close: JsonNumber,
}

pub open spec fn close_point(c: Candle) -> ClosePoint {
    ClosePoint { time: local_time(c.time), close: c.close }
}

/// Close points of the candles on local day `day`, in order.
pub open spec fn day_points(cs: Seq<Candle>, day: int) -> Seq<ClosePoint>
    decreases cs.len(),
{
    if cs.len() == 0 {
        Seq::empty()
    } else if local_day(cs.last().time) == day {
        day_points(cs.drop_last(), day).push(close_point(cs.last()))
    } else {
        day_points(cs.drop_last(), day)
    }
}

/// Running (minimum, maximum) over `xs`, starting from `acc`.
pub open spec fn min_max(acc: Option<(int, int)>, xs: Seq<int>) -> Option<(int, int)>
    decreases xs.len(),
{
    if xs.len() == 0 {
        acc
    } else {
        let x = xs.last();
        match min_max(acc, xs.drop_last()) {
            None => Some((x, x)),
            Some((lo, hi)) => Some((if x < lo { x } else { lo }, if x > hi { x } else { hi })),
        }
    }
}

/// Running (earliest, latest) over `xs`, starting from `acc`.
pub open spec fn time_range(acc: Option<(LocalTime, LocalTime)>, xs: Seq<LocalTime>) -> Option<(LocalTime, LocalTime)>
    decreases xs.len(),
{
    if xs.len() == 0 {
        acc
    } else {
        let x = xs.last();
        match time_range(acc, xs.drop_last()) {
            None => Some((x, x)),
            Some((lo, hi)) => Some((if time_before(x, lo) { x } else { lo }, if time_before(hi, x) { x } else { hi })),
        }
    }
}

pub open spec fn point_times(ps: Seq<ClosePoint>) -> Seq<LocalTime> {
    ps.map_values(|p: ClosePoint| p.time)
}

fn points_of_day(cs: &Vec<Candle>, day: i128) -> (r: Vec<ClosePoint>)
    ensures
        r@ == day_points(cs@, day as int),
{
    let mut out: Vec<ClosePoint> = Vec::new();
    let mut i: usize = 0;
    assert(cs@.take(0) =~= Seq::<Candle>::empty());
    while i < cs.len()
        invariant
            i <= cs@.len(),
            out@ == day_points(cs@.take(i as int), day as int),
        decreases cs@.len() - i,
    {
        assert(cs@.take(i + 1).drop_last() =~= cs@.take(i as int));
        let c = cs[i];
        if candle_local_day(&c.time) == day {
            out.push(ClosePoint { time: candle_local_time(&c.time), close: c.close });
        }
        i = i + 1;
    }
    assert(cs@.take(i as int) =~= cs@);
    out
}

fn widen(acc: Option<(LocalTime, LocalTime)>, ps: &Vec<ClosePoint>) -> (r: Option<(LocalTime, LocalTime)>)
    ensures
        r == time_range(acc, point_times(ps@)),
{
    let mut cur = acc;
    let mut i: usize = 0;
    assert(point_times(ps@.take(0)) =~= Seq::<LocalTime>::empty());
    while i < ps.len()
        invariant
            i <= ps@.len(),
            cur == time_range(acc, point_times(ps@.take(i as int))),
        decreases ps@.len() - i,
    {
        assert(point_times(ps@.take(i + 1)).drop_last() =~= point_times(ps@.take(i as int)));
        let t = ps[i].time;
        cur = match cur {
            None => Some((t, t)),
            Some((lo, hi)) => Some((if earlier(t, lo) { t } else { lo }, if earlier(hi, t) { t } else { hi })),
        };
        i = i + 1;
    }
    assert(ps@.take(i as int) =~= ps@);
    cur
}

/// Why a chart has nothing to draw.
#[derive(Debug, Clone, Copy, PartialEq, Eq, Structural)]
pub enum ChartError {
    /// No candles at all (for the multi-timeframe chart: no 5-minute ones).
    NoCandles,
    /// No candle falls on the chosen day.
    NoCandlesForDay,
    /// No candle carries open interest.
    NoOpenInterest,
}

/// The three close series of the last trading day, and their time range.
#[derive(Debug)]
pub struct DaySeries {
    /// The day, in days since 1970-01-01 on the exchange's clock.
    pub day: i128,
    pub s5: Vec<ClosePoint>,
    pub s15: Vec<ClosePoint>,
    pub s60: Vec<ClosePoint>,
    pub min_time: LocalTime,
    pub max_time: LocalTime,
}

/// The series of a multi-timeframe chart: the last trading day is the day
/// of the last 5-minute candle; each series keeps that day's candles.
pub fn last_day_series(c5: &Vec<Candle>, c15: &Vec<Candle>, c60: &Vec<Candle>) -> (r: Result<DaySeries, ChartError>)
    ensures
        c5@.len() == 0 ==> r == Err::<DaySeries, ChartError>(ChartError::NoCandles),
        c5@.len() > 0 ==> (r matches Ok(s) && ({
            let day = local_day(c5@.last().time);
            &&& s.day == day
            &&& s.s5@ == day_points(c5@, day)
            &&& s.s15@ == day_points(c15@, day)
            &&& s.s60@ == day_points(c60@, day)
            &&& time_range(
                time_range(time_range(None, point_times(s.s5@)), point_times(s.s15@)),
                point_times(s.s60@),
            ) == Some((s.min_time, s.max_time))
        })),
{
    if c5.len() == 0 {
        return Err(ChartError::NoCandles);
    }
    let day = candle_local_day(&c5[c5.len() - 1].time);
    let s5 = points_of_day(c5, day);
    let s15 = points_of_day(c15, day);
    let s60 = points_of_day(c60, day);
    proof {
        lemma_last_on_day(c5@, day as int);
        lemma_time_range_some(None, point_times(s5@));
        lemma_time_range_keeps(time_range(None, point_times(s5@)), point_times(s15@));
        lemma_time_range_keeps(time_range(time_range(None, point_times(s5@)), point_times(s15@)), point_times(s60@));
    }
    let range = widen(widen(widen(None, &s5), &s15), &s60);
    match range {
        Some((lo, hi)) => Ok(DaySeries { day, s5, s15, s60, min_time: lo, max_time: hi }),
        None => Err(ChartError::NoCandlesForDay),
    }
}

proof fn lemma_last_on_day(cs: Seq<Candle>, day: int)
    requires
        cs.len() > 0,
        local_day(cs.last().time) == day,
    ensures
        day_points(cs, day).len() > 0,
{
}

proof fn lemma_time_range_some(acc: Option<(LocalTime, LocalTime)>, xs: Seq<LocalTime>)
    requires
        xs.len() > 0,
    ensures
        time_range(acc, xs) is Some,
{
}

proof fn lemma_time_range_keeps(acc: Option<(LocalTime, LocalTime)>, xs: Seq<LocalTime>)
    requires
        acc is Some,
    ensures
        time_range(acc, xs) is Some,
    decreases xs.len(),
{
    if xs.len() > 0 {
        lemma_time_range_keeps(acc, xs.drop_last());
    }
}

/// The day of the multi-timeframe chart always has candles: whenever there
/// are 5-minute candles, the 5-minute series of the last day is not empty.
pub proof fn lemma_last_day_has_candles(c5: Seq<Candle>)
    requires
        c5.len() > 0,
    ensures
        day_points(c5, local_day(c5.last().time)).len() > 0,
{
}

/// Open interest of the candles that carry it, with their local times.
pub open spec fn oi_points(cs: Seq<Candle>) -> Seq<(LocalTime, i64)>
    decreases cs.len(),
{
    if cs.len() == 0 {
        Seq::empty()
    } else {
        match cs.last().oi {
            Some(oi) => oi_points(cs.drop_last()).push((local_time(cs.last().time), oi)),
            None => oi_points(cs.drop_last()),
        }
    }
}

pub open spec fn all_points(cs: Seq<Candle>) -> Seq<ClosePoint> {
    cs.map_values(|c: Candle| close_point(c))
}

pub open spec fn oi_values(ps: Seq<(LocalTime, i64)>) -> Seq<int> {
    ps.map_values(|p: (LocalTime, i64)| p.1 as int)
}

/// The close and open-interest series of a chart.
#[derive(Debug)]
pub struct CloseOiSeries {
    pub close: Vec<ClosePoint>,
    pub oi: Vec<(LocalTime, i64)>,
    pub first_time: LocalTime,
    pub last_time: LocalTime,
    pub min_oi: i64,
    pub max_oi: i64,
}

/// Close of every candle, open interest of those that carry it, the time
/// span from the first to the last candle, and the open-interest range.
pub fn close_oi_series(candles: &Vec<Candle>) -> (r: Result<CloseOiSeries, ChartError>)
    ensures
        candles@.len() == 0 ==> r == Err::<CloseOiSeries, ChartError>(ChartError::NoCandles),
        candles@.len() > 0 && oi_points(candles@).len() == 0 ==> r == Err::<CloseOiSeries, ChartError>(
            ChartError::NoOpenInterest,
        ),
        candles@.len() > 0 && oi_points(candles@).len() > 0 ==> (r matches Ok(s) && ({
            &&& s.close@ == all_points(candles@)
            &&& s.oi@ == oi_points(candles@)
            &&& s.first_time == local_time(candles@[0].time)
            &&& s.last_time == local_time(candles@.last().time)
            &&& min_max(None, oi_values(oi_points(candles@))) == Some((s.min_oi as int, s.max_oi as int))
        })),
{
    let mut close: Vec<ClosePoint> = Vec::new();
    let mut oi: Vec<(LocalTime, i64)> = Vec::new();
    let mut range: Option<(i64, i64)> = None;
    let mut i: usize = 0;
    assert(candles@.take(0) =~= Seq::<Candle>::empty());
    while i < candles.len()
        invariant
            i <= candles@.len(),
            close@ == all_points(candles@.take(i as int)),
            oi@ == oi_points(candles@.take(i as int)),
            match range {
                Some((a, b)) => min_max(None, oi_values(oi_points(candles@.take(i as int)))) == Some(
                    (a as int, b as int),
                ),
                None => min_max(None, oi_values(oi_points(candles@.take(i as int)))) is None && oi@.len()
                    == 0,
            },
        decreases candles@.len() - i,
    {
        let ghost pre = candles@.take(i as int);
        assert(candles@.take(i + 1).drop_last() =~= pre);
        let c = candles[i];
        let t = candle_local_time(&c.time);
        close.push(ClosePoint { time: t, close: c.close });
        assert(close@ =~= all_points(candles@.take(i + 1)));
        if let Some(v) = c.oi {
            oi.push((t, v));
            assert(oi_values(oi_points(candles@.take(i + 1))).drop_last() =~= oi_values(oi_points(pre)));
            range = match range {
                None => Some((v, v)),
                Some((lo, hi)) => Some((if v < lo { v } else { lo }, if v > hi { v } else { hi })),
            };
        }
        i = i + 1;
    }
    assert(candles@.take(i as int) =~= candles@);
    if close.len() == 0 {
        return Err(ChartError::NoCandles);
    }
    let first_time = close[0].time;
    let last_time = close[close.len() - 1].time;
    match range {
        Some((lo, hi)) => Ok(CloseOiSeries { close, oi, first_time, last_time, min_oi: lo, max_oi: hi }),
        None => Err(ChartError::NoOpenInterest),
    }
}

} // verus!
