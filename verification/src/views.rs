//! What the CLI shows of the API's replies: quote tables, positions, the
//! order book, the profile, and the single values read from replies.
//! Prices stay the JSON numbers of the reply; defaults for missing text
//! and integers are applied here.
use vstd::prelude::*;
use crate::json::{Json, JsonNumber};

verus! {

/// The value at a path of member names.
pub open spec fn at_path(v: Json, path: Seq<&str>) -> Option<Json>
    decreases path.len(),
{
    if path.len() == 0 {
        Some(v)
    } else {
        match v.field(path[0]@) {
            Some(w) => at_path(w, path.drop_first()),
            None => None,
        }
    }
}

pub open spec fn number_at_path(v: Json, path: Seq<&str>) -> Option<JsonNumber> {
    match at_path(v, path) {
        Some(w) => w.number_value(),
        None => None,
    }
}

pub open spec fn i64_at_path(v: Json, path: Seq<&str>) -> Option<i64> {
    match at_path(v, path) {
        Some(w) => w.i64_value(),
        None => None,
    }
}

pub fn value_at<'a>(v: &'a Json, path: &[&str]) -> (r: Option<&'a Json>)
    ensures
        r matches Some(w) ==> at_path(*v, path@) == Some(*w),
        r is None ==> at_path(*v, path@) is None,
{
    let mut cur = v;
    let mut i: usize = 0;
    assert(path@.skip(0) =~= path@);
    while i < path.len()
        invariant
            i <= path@.len(),
            at_path(*v, path@) == at_path(*cur, path@.skip(i as int)),
        decreases path@.len() - i,
    {
        assert(path@.skip(i as int).drop_first() =~= path@.skip(i + 1));
        assert(path@.skip(i as int)[0] == path@[i as int]);
        match cur.get(path[i]) {
            Some(w) => {
                cur = w;
            },
            None => {
                return None;
            },
        }
        i = i + 1;
    }
    Some(cur)
}

/// `f64_at`: the number at a path (what a price is read from).
pub fn number_at(v: &Json, path: &[&str]) -> (r: Option<JsonNumber>)
    ensures
        r == number_at_path(*v, path@),
{
    match value_at(v, path) {
        Some(w) => w.as_number(),
        None => None,
    }
}

/// `i64_at`: the integer at a path.
pub fn integer_at(v: &Json, path: &[&str]) -> (r: Option<i64>)
    ensures
        r == i64_at_path(*v, path@),
{
    match value_at(v, path) {
        Some(w) => w.as_i64(),
        None => None,
    }
}

/// A text member, or `-` when missing or not a string.
pub open spec fn text_or_dash(v: Json, key: Seq<char>) -> Seq<char> {
    match v.str_field(key) {
        Some(s) => s,
        None => "-"@,
    }
}

pub fn get_text_or_dash(v: &Json, key: &str) -> (r: String)
    ensures
        r@ == text_or_dash(*v, key@),
{
    match v.get_str(key) {
        Some(s) => s.to_owned(),
        None => "-".to_owned(),
    }
}

/// An integer member, or `default`.
pub open spec fn i64_or(v: Json, key: Seq<char>, default: i64) -> i64 {
    match v.i64_field(key) {
        Some(n) => n,
        None => default,
    }
}

pub fn get_i64_or(v: &Json, key: &str, default: i64) -> (r: i64)
    ensures
        r == i64_or(*v, key@, default),
{
    match v.get_i64(key) {
        Some(n) => n,
        None => default,
    }
}

/// The last price of `key` in an LTP reply (with or without `data`).
pub open spec fn last_price_of(ltp: Json, key: Seq<char>) -> Option<JsonNumber> {
    match ltp.payload().field(key) {
        Some(q) => q.number_field("last_price"@),
        None => None,
    }
}

/// `extract_last_price` / `extract_ltp`.
pub fn extract_last_price(ltp_json: &Json, key: &str) -> (r: Option<JsonNumber>)
    ensures
        r == last_price_of(*ltp_json, key@),
{
    match ltp_json.payload_ref().get(key) {
        Some(q) => q.get_number("last_price"),
        None => None,
    }
}

/// `ltp["data"][key]["last_price"]`: the last price under `data` only.
pub open spec fn data_last_price(ltp: Json, key: Seq<char>) -> Option<JsonNumber> {
    match ltp.field("data"@) {
        Some(d) => match d.field(key) {
            Some(q) => q.number_field("last_price"@),
            None => None,
        },
        None => None,
    }
}

pub fn data_last_price_of(ltp_json: &Json, key: &str) -> (r: Option<JsonNumber>)
    ensures
        r == data_last_price(*ltp_json, key@),
{
    match ltp_json.get("data") {
        Some(d) => match d.get(key) {
            Some(q) => q.get_number("last_price"),
            None => None,
        },
        None => None,
    }
}

/// The `total` of the first order in a margins reply.
pub open spec fn first_total(v: Json) -> Option<JsonNumber> {
    match v.field("data"@) {
        Some(d) => match d.array_items() {
            Some(a) => if a.len() > 0 {
                a[0].number_field("total"@)
            } else {
                None
            },
            None => None,
        },
        None => None,
    }
}

pub fn first_total_margin(v: &Json) -> (r: Option<JsonNumber>)
    ensures
        r == first_total(*v),
{
    let d = v.get("data")?;
    let a = d.as_array()?;
    if a.len() == 0 {
        return None;
    }
    a[0].get_number("total")
}

/// `access_token` of a session reply.
pub fn session_access_token(resp: &Json) -> (r: Option<String>)
    ensures
        r matches Some(s) ==> resp.str_field("access_token"@) == Some(s@),
        r is None ==> resp.str_field("access_token"@) is None,
{
    match resp.get_str("access_token") {
        Some(s) => Some(s.to_owned()),
        None => None,
    }
}

/// One row of the LTP table.
#[derive(Debug)]
pub struct LtpRow {
    pub instrument: String,
    pub last_price: Option<JsonNumber>,
}

/// Members of the quote object of a reply: the `data` object when there
/// is one, else the reply itself when it is an object.
pub open spec fn quote_members(v: Json) -> Seq<(String, Json)> {
    match v.payload().object_members() {
        Some(ms) => ms,
        None => Seq::empty(),
    }
}

fn quote_members_ref(v: &Json) -> (r: Option<&Vec<(String, Json)>>)
    ensures
        r matches Some(ms) ==> quote_members(*v) == ms@,
        r is None ==> quote_members(*v) == Seq::<(String, Json)>::empty(),
{
    v.payload_ref().as_object()
}

pub open spec fn ltp_row_of(row: LtpRow, m: (String, Json)) -> bool {
    row.instrument@ == m.0@ && row.last_price == number_at_path(m.1, seq!["last_price"])
}

/// An LTP row names the instrument of its quote and takes its price from
/// that quote's `last_price`.
pub proof fn lemma_ltp_row_price(row: LtpRow, m: (String, Json))
    requires
        ltp_row_of(row, m),
    ensures
        row.instrument@ == m.0@,
        row.last_price == member_number(m.1, "last_price"@),
{
    lemma_ohlc_paths(m.1);
}

/// The rows of the LTP table: one per instrument of the reply.
pub fn ltp_rows(ltp: &Json) -> (r: Vec<LtpRow>)
    ensures
        r@.len() == quote_members(*ltp).len(),
        forall|i: int| 0 <= i < r@.len() ==> ltp_row_of(#[trigger] r@[i], quote_members(*ltp)[i]),
{
    let mut out: Vec<LtpRow> = Vec::new();
    let ms = match quote_members_ref(ltp) {
        Some(ms) => ms,
        None => return out,
    };
    let path = ["last_price"];
    assert(path@ == seq!["last_price"]);
    let mut i: usize = 0;
    while i < ms.len()
        invariant
            i <= ms@.len(),
            quote_members(*ltp) == ms@,
            path@ == seq!["last_price"],
            out@.len() == i,
            forall|k: int| 0 <= k < i ==> ltp_row_of(#[trigger] out@[k], ms@[k]),
        decreases ms@.len() - i,
    {
        let m = &ms[i];
        out.push(LtpRow { instrument: m.0.clone(), last_price: number_at(&m.1, &path) });
        i = i + 1;
    }
    out
}

/// The number under `ohlc.<name>` of one instrument's quote.
pub open spec fn ohlc_price(v: Json, name: Seq<char>) -> Option<JsonNumber> {
    match v.field("ohlc"@) {
        Some(o) => match o.field(name) {
            Some(x) => x.number_value(),
            None => None,
        },
        None => None,
    }
}

/// The number under a member of an object (none when missing or not a
/// number).
pub open spec fn member_number(v: Json, name: Seq<char>) -> Option<JsonNumber> {
    match v.field(name) {
        Some(x) => x.number_value(),
        None => None,
    }
}

/// The text under a member of an object, or `-` when missing or not text.
pub open spec fn member_text_or_dash(v: Json, name: Seq<char>) -> Seq<char> {
    match v.field(name) {
        Some(x) => match x.str_value() {
            Some(t) => t,
            None => "-"@,
        },
        None => "-"@,
    }
}

/// The integer under a member of an object, or `0` when missing.
pub open spec fn member_int_or_zero(v: Json, name: Seq<char>) -> i64 {
    match v.field(name) {
        Some(x) => match x.i64_value() {
            Some(n) => n,
            None => 0,
        },
        None => 0,
    }
}

proof fn lemma_ohlc_paths(v: Json)
    ensures
        number_at_path(v, seq!["ohlc", "open"]) == ohlc_price(v, "open"@),
        number_at_path(v, seq!["ohlc", "high"]) == ohlc_price(v, "high"@),
        number_at_path(v, seq!["ohlc", "low"]) == ohlc_price(v, "low"@),
        number_at_path(v, seq!["ohlc", "close"]) == ohlc_price(v, "close"@),
        number_at_path(v, seq!["last_price"]) == member_number(v, "last_price"@),
{
    reveal_with_fuel(at_path, 3);
    assert(seq!["ohlc", "open"].drop_first() =~= seq!["open"]);
    assert(seq!["ohlc", "high"].drop_first() =~= seq!["high"]);
    assert(seq!["ohlc", "low"].drop_first() =~= seq!["low"]);
    assert(seq!["ohlc", "close"].drop_first() =~= seq!["close"]);
    assert(seq!["open"].drop_first() =~= Seq::<&str>::empty());
    assert(seq!["high"].drop_first() =~= Seq::<&str>::empty());
    assert(seq!["low"].drop_first() =~= Seq::<&str>::empty());
    assert(seq!["close"].drop_first() =~= Seq::<&str>::empty());
    assert(seq!["last_price"].drop_first() =~= Seq::<&str>::empty());
}

/// One row of the OHLC table.
#[derive(Debug)]
pub struct OhlcRow {
    pub instrument: String,
    pub open: Option<JsonNumber>,
    pub high: Option<JsonNumber>,
    pub low: Option<JsonNumber>,
    pub close: Option<JsonNumber>,
    pub last_price: Option<JsonNumber>,
}

pub open spec fn ohlc_row_of(row: OhlcRow, m: (String, Json)) -> bool {
    &&& row.instrument@ == m.0@
    &&& row.open == number_at_path(m.1, seq!["ohlc", "open"])
    &&& row.high == number_at_path(m.1, seq!["ohlc", "high"])
    &&& row.low == number_at_path(m.1, seq!["ohlc", "low"])
    &&& row.close == number_at_path(m.1, seq!["ohlc", "close"])
    &&& row.last_price == number_at_path(m.1, seq!["last_price"])
}

fn ohlc_row(m: &(String, Json)) -> (r: OhlcRow)
    ensures
        ohlc_row_of(r, *m),
{
    let o = ["ohlc", "open"];
    let h = ["ohlc", "high"];
    let l = ["ohlc", "low"];
    let c = ["ohlc", "close"];
    let lp = ["last_price"];
    assert(o@ == seq!["ohlc", "open"]);
    assert(h@ == seq!["ohlc", "high"]);
    assert(l@ == seq!["ohlc", "low"]);
    assert(c@ == seq!["ohlc", "close"]);
    assert(lp@ == seq!["last_price"]);
    OhlcRow {
        instrument: m.0.clone(),
        open: number_at(&m.1, &o),
        high: number_at(&m.1, &h),
        low: number_at(&m.1, &l),
        close: number_at(&m.1, &c),
        last_price: number_at(&m.1, &lp),
    }
}

/// An OHLC row takes each price from its own member of the instrument's
/// quote: open, high, low and close from `ohlc.open`, `ohlc.high`,
/// `ohlc.low` and `ohlc.close`, the last price from `last_price`.
pub proof fn lemma_ohlc_row_prices(row: OhlcRow, m: (String, Json))
    requires
        ohlc_row_of(row, m),
    ensures
        row.open == ohlc_price(m.1, "open"@),
        row.high == ohlc_price(m.1, "high"@),
        row.low == ohlc_price(m.1, "low"@),
        row.close == ohlc_price(m.1, "close"@),
        row.last_price == member_number(m.1, "last_price"@),
{
    lemma_ohlc_paths(m.1);
}

/// The rows of the OHLC table: one per instrument of the reply.
pub fn ohlc_rows(ohlc: &Json) -> (r: Vec<OhlcRow>)
    ensures
        r@.len() == quote_members(*ohlc).len(),
        forall|i: int| 0 <= i < r@.len() ==> ohlc_row_of(#[trigger] r@[i], quote_members(*ohlc)[i]),
        forall|i: int|
            0 <= i < r@.len() ==> (#[trigger] r@[i]).high == ohlc_price(quote_members(*ohlc)[i].1, "high"@)
                && r@[i].low == ohlc_price(quote_members(*ohlc)[i].1, "low"@) && r@[i].open == ohlc_price(
                quote_members(*ohlc)[i].1,
                "open"@,
            ) && r@[i].close == ohlc_price(quote_members(*ohlc)[i].1, "close"@),
{
    let mut out: Vec<OhlcRow> = Vec::new();
    let ms = match quote_members_ref(ohlc) {
        Some(ms) => ms,
        None => return out,
    };
    let mut i: usize = 0;
    while i < ms.len()
        invariant
            i <= ms@.len(),
            quote_members(*ohlc) == ms@,
            out@.len() == i,
            forall|k: int| 0 <= k < i ==> ohlc_row_of(#[trigger] out@[k], ms@[k]),
        decreases ms@.len() - i,
    {
        out.push(ohlc_row(&ms[i]));
        i = i + 1;
    }
    proof {
        assert forall|k: int| 0 <= k < out@.len() implies (#[trigger] out@[k]).high == ohlc_price(ms@[k].1, "high"@)
            && out@[k].low == ohlc_price(ms@[k].1, "low"@) && out@[k].open == ohlc_price(ms@[k].1, "open"@)
            && out@[k].close == ohlc_price(ms@[k].1, "close"@) by {
            lemma_ohlc_row_prices(out@[k], ms@[k]);
        }
    }
    out
}

/// One level of market depth: best bids and asks side by side.
#[derive(Debug, Clone, Copy, PartialEq, Eq, Structural)]
pub struct DepthRow {
    pub bid_price: Option<JsonNumber>,
    pub bid_quantity: Option<i64>,
    pub ask_price: Option<JsonNumber>,
    pub ask_quantity: Option<i64>,
}

/// The full quote of one instrument.
#[derive(Debug)]
pub struct QuoteView {
    pub instrument: String,
    pub last_price: Option<JsonNumber>,
    /// The traded volume, `-1` when missing.
    pub volume: i64,
    pub average_price: Option<JsonNumber>,
    pub open: Option<JsonNumber>,
    pub high: Option<JsonNumber>,
    pub low: Option<JsonNumber>,
    pub close: Option<JsonNumber>,
    /// Always five levels; missing ones are empty.
    pub depth: Vec<DepthRow>,
}

/// The entries of one side of the depth (`buy` or `sell`), none when
/// missing.
pub open spec fn depth_side(v: Json, side: Seq<char>) -> Seq<Json> {
    match v.field("depth"@) {
        Some(d) => match d.field(side) {
            Some(a) => match a.array_items() {
                Some(items) => items,
                None => Seq::empty(),
            },
            None => Seq::empty(),
        },
        None => Seq::empty(),
    }
}

pub open spec fn level_price(side: Seq<Json>, i: int) -> Option<JsonNumber> {
    if 0 <= i < side.len() {
        side[i].number_field("price"@)
    } else {
        None
    }
}

pub open spec fn level_quantity(side: Seq<Json>, i: int) -> Option<i64> {
    if 0 <= i < side.len() {
        side[i].i64_field("quantity"@)
    } else {
        None
    }
}

pub open spec fn depth_row_at(v: Json, i: int) -> DepthRow {
    DepthRow {
        bid_price: level_price(depth_side(v, "buy"@), i),
        bid_quantity: level_quantity(depth_side(v, "buy"@), i),
        ask_price: level_price(depth_side(v, "sell"@), i),
        ask_quantity: level_quantity(depth_side(v, "sell"@), i),
    }
}

pub open spec fn quote_view_of(q: QuoteView, m: (String, Json)) -> bool {
    &&& q.instrument@ == m.0@
    &&& q.last_price == number_at_path(m.1, seq!["last_price"])
    &&& q.volume == (match i64_at_path(m.1, seq!["volume"]) {
        Some(n) => n,
        None => -1i64,
    })
    &&& q.average_price == number_at_path(m.1, seq!["average_price"])
    &&& q.open == number_at_path(m.1, seq!["ohlc", "open"])
    &&& q.high == number_at_path(m.1, seq!["ohlc", "high"])
    &&& q.low == number_at_path(m.1, seq!["ohlc", "low"])
    &&& q.close == number_at_path(m.1, seq!["ohlc", "close"])
    &&& q.depth@.len() == 5
    &&& forall|i: int| 0 <= i < 5 ==> #[trigger] q.depth@[i] == depth_row_at(m.1, i)
}

fn depth_side_ref<'a>(v: &'a Json, side: &str) -> (r: Option<&'a Vec<Json>>)
    ensures
        r matches Some(a) ==> depth_side(*v, side@) == a@,
        r is None ==> depth_side(*v, side@) == Seq::<Json>::empty(),
{
    let d = v.get("depth")?;
    let a = d.get(side)?;
    a.as_array()
}

fn level(side: Option<&Vec<Json>>, i: usize) -> (r: (Option<JsonNumber>, Option<i64>))
    ensures
        ({
            let s = match side {
                Some(a) => a@,
                None => Seq::<Json>::empty(),
            };
            r.0 == level_price(s, i as int) && r.1 == level_quantity(s, i as int)
        }),
{
    match side {
        Some(a) => if i < a.len() {
            (a[i].get_number("price"), a[i].get_i64("quantity"))
        } else {
            (None, None)
        },
        None => (None, None),
    }
}

fn quote_view(m: &(String, Json)) -> (r: QuoteView)
    ensures
        quote_view_of(r, *m),
{
    let v = &m.1;
    let lp = ["last_price"];
    let vol = ["volume"];
    let avg = ["average_price"];
    let o = ["ohlc", "open"];
    let h = ["ohlc", "high"];
    let l = ["ohlc", "low"];
    let c = ["ohlc", "close"];
    assert(lp@ == seq!["last_price"]);
    assert(vol@ == seq!["volume"]);
    assert(avg@ == seq!["average_price"]);
    assert(o@ == seq!["ohlc", "open"]);
    assert(h@ == seq!["ohlc", "high"]);
    assert(l@ == seq!["ohlc", "low"]);
    assert(c@ == seq!["ohlc", "close"]);
    let buys = depth_side_ref(v, "buy");
    let sells = depth_side_ref(v, "sell");
    let mut depth: Vec<DepthRow> = Vec::new();
    let mut i: usize = 0;
    while i < 5
        invariant
            i <= 5,
            depth@.len() == i,
            buys matches Some(a) ==> depth_side(*v, "buy"@) == a@,
            buys is None ==> depth_side(*v, "buy"@) == Seq::<Json>::empty(),
            sells matches Some(a) ==> depth_side(*v, "sell"@) == a@,
            sells is None ==> depth_side(*v, "sell"@) == Seq::<Json>::empty(),
            forall|k: int| 0 <= k < i ==> #[trigger] depth@[k] == depth_row_at(*v, k),
        decreases 5 - i,
    {
        let (bp, bq) = level(buys, i);
        let (sp, sq) = level(sells, i);
        depth.push(DepthRow { bid_price: bp, bid_quantity: bq, ask_price: sp, ask_quantity: sq });
        i = i + 1;
    }
    QuoteView {
        instrument: m.0.clone(),
        last_price: number_at(v, &lp),
        volume: match integer_at(v, &vol) {
            Some(n) => n,
            None => -1,
        },
        average_price: number_at(v, &avg),
        open: number_at(v, &o),
        high: number_at(v, &h),
        low: number_at(v, &l),
        close: number_at(v, &c),
        depth,
    }
}

/// A quote view takes each price from its own member of the instrument's
/// quote: open, high, low and close from `ohlc.open`, `ohlc.high`,
/// `ohlc.low` and `ohlc.close`, the last price from `last_price`.
pub proof fn lemma_quote_prices(q: QuoteView, m: (String, Json))
    requires
        quote_view_of(q, m),
    ensures
        q.open == ohlc_price(m.1, "open"@),
        q.high == ohlc_price(m.1, "high"@),
        q.low == ohlc_price(m.1, "low"@),
        q.close == ohlc_price(m.1, "close"@),
        q.last_price == member_number(m.1, "last_price"@),
{
    lemma_ohlc_paths(m.1);
}

/// The `i`-th entry of one side (`buy` or `sell`) of a quote's depth.
pub open spec fn depth_entry(v: Json, side: Seq<char>, i: int) -> Option<Json> {
    match v.field("depth"@) {
        Some(d) => match d.field(side) {
            Some(a) => match a.array_items() {
                Some(items) => if 0 <= i < items.len() {
                    Some(items[i])
                } else {
                    None
                },
                None => None,
            },
            None => None,
        },
        None => None,
    }
}

/// A quote view's depth has five levels; level `i` shows the `i`-th bid
/// (from `depth.buy`) beside the `i`-th ask (from `depth.sell`), each with
/// its price and quantity. The volume is the reply's `volume`, or `-1`.
pub proof fn lemma_quote_depth_and_volume(q: QuoteView, m: (String, Json))
    requires
        quote_view_of(q, m),
    ensures
        q.instrument@ == m.0@,
        q.depth@.len() == 5,
        forall|i: int| 0 <= i < 5 ==> {
            &&& (#[trigger] q.depth@[i]).bid_price == (match depth_entry(m.1, "buy"@, i) {
                Some(e) => member_number(e, "price"@),
                None => None,
            })
            &&& q.depth@[i].ask_price == (match depth_entry(m.1, "sell"@, i) {
                Some(e) => member_number(e, "price"@),
                None => None,
            })
            &&& q.depth@[i].bid_quantity == (match depth_entry(m.1, "buy"@, i) {
                Some(e) => e.i64_field("quantity"@),
                None => None,
            })
            &&& q.depth@[i].ask_quantity == (match depth_entry(m.1, "sell"@, i) {
                Some(e) => e.i64_field("quantity"@),
                None => None,
            })
        },
        q.volume == (match m.1.field("volume"@) {
            Some(x) => match x.i64_value() {
                Some(n) => n,
                None => -1i64,
            },
            None => -1i64,
        }),
{
    reveal_with_fuel(at_path, 2);
    assert(seq!["volume"].drop_first() =~= Seq::<&str>::empty());
    assert forall|i: int| 0 <= i < 5 implies {
        &&& (#[trigger] q.depth@[i]).bid_price == (match depth_entry(m.1, "buy"@, i) {
            Some(e) => member_number(e, "price"@),
            None => None,
        })
        &&& q.depth@[i].ask_price == (match depth_entry(m.1, "sell"@, i) {
            Some(e) => member_number(e, "price"@),
            None => None,
        })
        &&& q.depth@[i].bid_quantity == (match depth_entry(m.1, "buy"@, i) {
            Some(e) => e.i64_field("quantity"@),
            None => None,
        })
        &&& q.depth@[i].ask_quantity == (match depth_entry(m.1, "sell"@, i) {
            Some(e) => e.i64_field("quantity"@),
            None => None,
        })
    } by {
        assert(q.depth@[i] == depth_row_at(m.1, i));
    }
}

/// The full quotes of a reply, one per instrument.
pub fn quote_views(quote: &Json) -> (r: Vec<QuoteView>)
    ensures
        r@.len() == quote_members(*quote).len(),
        forall|i: int| 0 <= i < r@.len() ==> quote_view_of(#[trigger] r@[i], quote_members(*quote)[i]),
        forall|i: int|
            0 <= i < r@.len() ==> (#[trigger] r@[i]).high == ohlc_price(quote_members(*quote)[i].1, "high"@)
                && r@[i].low == ohlc_price(quote_members(*quote)[i].1, "low"@) && r@[i].open == ohlc_price(
                quote_members(*quote)[i].1,
                "open"@,
            ) && r@[i].close == ohlc_price(quote_members(*quote)[i].1, "close"@),
{
    let mut out: Vec<QuoteView> = Vec::new();
    let ms = match quote_members_ref(quote) {
        Some(ms) => ms,
        None => return out,
    };
    let mut i: usize = 0;
    while i < ms.len()
        invariant
            i <= ms@.len(),
            quote_members(*quote) == ms@,
            out@.len() == i,
            forall|k: int| 0 <= k < i ==> quote_view_of(#[trigger] out@[k], ms@[k]),
        decreases ms@.len() - i,
    {
        out.push(quote_view(&ms[i]));
        i = i + 1;
    }
    proof {
        assert forall|k: int| 0 <= k < out@.len() implies (#[trigger] out@[k]).high == ohlc_price(ms@[k].1, "high"@)
            && out@[k].low == ohlc_price(ms@[k].1, "low"@) && out@[k].open == ohlc_price(ms@[k].1, "open"@)
            && out@[k].close == ohlc_price(ms@[k].1, "close"@) by {
            lemma_quote_prices(out@[k], ms@[k]);
        }
    }
    out
}


/// One row of the positions tables.
#[derive(Debug)]
pub struct PositionRow {
    pub tradingsymbol: String,
    pub product: String,
    /// `0` when missing.
    pub quantity: i64,
    pub average_price: Option<JsonNumber>,
    pub last_price: Option<JsonNumber>,
    pub pnl: Option<JsonNumber>,
    pub m2m: Option<JsonNumber>,
}

pub open spec fn position_row_of(r: PositionRow, p: Json) -> bool {
    &&& r.tradingsymbol@ == text_or_dash(p, "tradingsymbol"@)
    &&& r.product@ == text_or_dash(p, "product"@)
    &&& r.quantity == i64_or(p, "quantity"@, 0)
    &&& r.average_price == p.number_field("average_price"@)
    &&& r.last_price == p.number_field("last_price"@)
    &&& r.pnl == p.number_field("pnl"@)
    &&& r.m2m == p.number_field("m2m"@)
}

/// A position row takes each column from the member of the same name:
/// the symbol and product as text (or `-`), the quantity as an integer
/// (or `0`), and the average price, last price, P&L and M2M as numbers.
pub proof fn lemma_position_columns(r: PositionRow, p: Json)
    requires
        position_row_of(r, p),
    ensures
        r.tradingsymbol@ == member_text_or_dash(p, "tradingsymbol"@),
        r.product@ == member_text_or_dash(p, "product"@),
        r.quantity == member_int_or_zero(p, "quantity"@),
        r.average_price == member_number(p, "average_price"@),
        r.last_price == member_number(p, "last_price"@),
        r.pnl == member_number(p, "pnl"@),
        r.m2m == member_number(p, "m2m"@),
{
}

/// Net (overnight) and day (intraday) positions.
#[derive(Debug)]
pub struct PositionsView {
    pub net: Vec<PositionRow>,
    pub day: Vec<PositionRow>,
}

/// The array `key` of a reply's payload; none when missing.
pub open spec fn payload_list(v: Json, key: Seq<char>) -> Seq<Json> {
    match v.payload().field(key) {
        Some(a) => match a.array_items() {
            Some(items) => items,
            None => Seq::empty(),
        },
        None => Seq::empty(),
    }
}

fn position_row(p: &Json) -> (r: PositionRow)
    ensures
        position_row_of(r, *p),
{
    PositionRow {
        tradingsymbol: get_text_or_dash(p, "tradingsymbol"),
        product: get_text_or_dash(p, "product"),
        quantity: get_i64_or(p, "quantity", 0),
        average_price: p.get_number("average_price"),
        last_price: p.get_number("last_price"),
        pnl: p.get_number("pnl"),
        m2m: p.get_number("m2m"),
    }
}

fn position_rows(v: &Json, key: &str) -> (r: Vec<PositionRow>)
    ensures
        r@.len() == payload_list(*v, key@).len(),
        forall|i: int| 0 <= i < r@.len() ==> position_row_of(#[trigger] r@[i], payload_list(*v, key@)[i]),
{
    let mut out: Vec<PositionRow> = Vec::new();
    let list = match v.payload_ref().get(key) {
        Some(a) => match a.as_array() {
            Some(items) => items,
            None => return out,
        },
        None => return out,
    };
    let mut i: usize = 0;
    while i < list.len()
        invariant
            i <= list@.len(),
            payload_list(*v, key@) == list@,
            out@.len() == i,
            forall|k: int| 0 <= k < i ==> position_row_of(#[trigger] out@[k], list@[k]),
        decreases list@.len() - i,
    {
        out.push(position_row(&list[i]));
        i = i + 1;
    }
    out
}

/// The net and day positions of a positions reply.
pub fn positions_view(positions_json: &Json) -> (r: PositionsView)
    ensures
        r.net@.len() == payload_list(*positions_json, "net"@).len(),
        forall|i: int| 0 <= i < r.net@.len() ==> position_row_of(#[trigger] r.net@[i], payload_list(*positions_json, "net"@)[i]),
        r.day@.len() == payload_list(*positions_json, "day"@).len(),
        forall|i: int| 0 <= i < r.day@.len() ==> position_row_of(#[trigger] r.day@[i], payload_list(*positions_json, "day"@)[i]),
{
    PositionsView { net: position_rows(positions_json, "net"), day: position_rows(positions_json, "day") }
}

/// One row of the order book listing.
#[derive(Debug)]
pub struct OrderBookRow {
    pub order_timestamp: String,
    pub tradingsymbol: String,
    pub transaction_type: String,
    /// `0` when missing.
    pub quantity: i64,
    pub price: Option<JsonNumber>,
    pub status: String,
    pub order_id: String,
}

pub open spec fn order_row_of(r: OrderBookRow, o: Json) -> bool {
    &&& r.order_timestamp@ == text_or_dash(o, "order_timestamp"@)
    &&& r.tradingsymbol@ == text_or_dash(o, "tradingsymbol"@)
    &&& r.transaction_type@ == text_or_dash(o, "transaction_type"@)
    &&& r.quantity == i64_or(o, "quantity"@, 0)
    &&& r.price == o.number_field("price"@)
    &&& r.status@ == text_or_dash(o, "status"@)
    &&& r.order_id@ == text_or_dash(o, "order_id"@)
}

/// An order-book row takes each column from the member of the same name:
/// texts (or `-`), the quantity (or `0`) and the price.
pub proof fn lemma_order_columns(r: OrderBookRow, o: Json)
    requires
        order_row_of(r, o),
    ensures
        r.order_timestamp@ == member_text_or_dash(o, "order_timestamp"@),
        r.tradingsymbol@ == member_text_or_dash(o, "tradingsymbol"@),
        r.transaction_type@ == member_text_or_dash(o, "transaction_type"@),
        r.quantity == member_int_or_zero(o, "quantity"@),
        r.price == member_number(o, "price"@),
        r.status@ == member_text_or_dash(o, "status"@),
        r.order_id@ == member_text_or_dash(o, "order_id"@),
{
}

fn order_row(o: &Json) -> (r: OrderBookRow)
    ensures
        order_row_of(r, *o),
{
    OrderBookRow {
        order_timestamp: get_text_or_dash(o, "order_timestamp"),
        tradingsymbol: get_text_or_dash(o, "tradingsymbol"),
        transaction_type: get_text_or_dash(o, "transaction_type"),
        quantity: get_i64_or(o, "quantity", 0),
        price: o.get_number("price"),
        status: get_text_or_dash(o, "status"),
        order_id: get_text_or_dash(o, "order_id"),
    }
}

/// The first `limit` orders of an order-book reply; none when the reply
/// holds no order array.
pub fn order_book_rows(orders_json: &Json, limit: usize) -> (r: Option<Vec<OrderBookRow>>)
    ensures
        orders_json.rows() is None ==> r is None,
        orders_json.rows() matches Some(rows) ==> (r matches Some(v) && v@.len() == (if rows.len() < limit {
            rows.len()
        } else {
            limit as nat
        }) && forall|i: int| 0 <= i < v@.len() ==> order_row_of(#[trigger] v@[i], rows[i])),
{
    let rows = orders_json.rows_ref()?;
    let mut out: Vec<OrderBookRow> = Vec::new();
    let mut i: usize = 0;
    while i < rows.len() && i < limit
        invariant
            i <= rows@.len(),
            i <= limit,
            orders_json.rows() == Some(rows@),
            out@.len() == i,
            forall|k: int| 0 <= k < i ==> order_row_of(#[trigger] out@[k], rows@[k]),
        decreases rows@.len() - i,
    {
        out.push(order_row(&rows[i]));
        i = i + 1;
    }
    Some(out)
}

/// The account details shown after logging in.
#[derive(Debug)]
pub struct ProfileView {
    pub user_name: String,
    pub user_id: String,
    pub user_type: String,
    pub email: String,
    pub user_shortname: String,
    pub broker: String,
}

pub fn profile_view(profile: &Json) -> (r: ProfileView)
    ensures
        r.user_name@ == text_or_dash(*profile, "user_name"@),
        r.user_id@ == text_or_dash(*profile, "user_id"@),
        r.user_type@ == text_or_dash(*profile, "user_type"@),
        r.email@ == text_or_dash(*profile, "email"@),
        r.user_shortname@ == text_or_dash(*profile, "user_shortname"@),
        r.broker@ == text_or_dash(*profile, "broker"@),
{
    ProfileView {
        user_name: get_text_or_dash(profile, "user_name"),
        user_id: get_text_or_dash(profile, "user_id"),
        user_type: get_text_or_dash(profile, "user_type"),
        email: get_text_or_dash(profile, "email"),
        user_shortname: get_text_or_dash(profile, "user_shortname"),
        broker: get_text_or_dash(profile, "broker"),
    }
}

} // verus!
