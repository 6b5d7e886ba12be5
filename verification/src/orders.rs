use vstd::prelude::*;
use crate::json::Json;
use crate::text::{decimal, decimal_string, str_eq};

verus! {

/// The order types that the Kite orders endpoint accepts.
#[derive(Debug, Clone, Copy, PartialEq, Eq, Structural)]
pub enum OrderType {
    Market,
    Limit,
    Sl,
    Slm,
}

/// Direction of an order.
#[derive(Debug, Clone, Copy, PartialEq, Eq, Structural)]
pub enum Side {
    Buy,
    Sell,
}

impl OrderType {
    /// The wire name of an order type.
    pub open spec fn wire_name(self) -> Seq<char> {
        match self {
            OrderType::Market => "MARKET"@,
            OrderType::Limit => "LIMIT"@,
            OrderType::Sl => "SL"@,
            OrderType::Slm => "SL-M"@,
        }
    }

    pub fn as_str(self) -> (s: &'static str)
        ensures
            s@ == self.wire_name(),
    {
        match self {
            OrderType::Market => "MARKET",
            OrderType::Limit => "LIMIT",
            OrderType::Sl => "SL",
            OrderType::Slm => "SL-M",
        }
    }
}

impl Side {
    /// The wire name of a side (`transaction_type`).
    pub open spec fn wire_name(self) -> Seq<char> {
        match self {
            Side::Buy => "BUY"@,
            Side::Sell => "SELL"@,
        }
    }

    pub fn as_str(self) -> (s: &'static str)
        ensures
            s@ == self.wire_name(),
    {
        match self {
            Side::Buy => "BUY",
            Side::Sell => "SELL",
        }
    }
}


/// A request form: field names and their text values, in sending order.
pub type Form = Vec<(&'static str, String)>;

pub open spec fn form_view(f: Seq<(&'static str, String)>) -> Seq<(Seq<char>, Seq<char>)> {
    f.map_values(|p: (&'static str, String)| (p.0@, p.1@))
}

/// One field when the value is given, none otherwise.
pub open spec fn opt_field(key: Seq<char>, v: Option<Seq<char>>) -> Seq<(Seq<char>, Seq<char>)> {
    match v {
        Some(x) => seq![(key, x)],
        None => Seq::empty(),
    }
}

pub open spec fn opt_view(v: Option<&str>) -> Option<Seq<char>> {
    match v {
        Some(s) => Some(s@),
        None => None,
    }
}

pub open spec fn opt_decimal(v: Option<u32>) -> Option<Seq<char>> {
    match v {
        Some(n) => Some(decimal(n as nat)),
        None => None,
    }
}

fn push_opt(f: &mut Form, key: &'static str, v: Option<&str>)
    ensures
        form_view(final(f)@) == form_view(old(f)@) + opt_field(key@, opt_view(v)),
{
    if let Some(x) = v {
        f.push((key, x.to_owned()));
    }
    assert(form_view(final(f)@) =~= form_view(old(f)@) + opt_field(key@, opt_view(v)));
}

/// The form of a regular MARKET order.
pub open spec fn market_order_fields(
    exchange: Seq<char>,
    tradingsymbol: Seq<char>,
    side: Side,
    quantity: u32,
    product: Seq<char>,
    tag: Option<Seq<char>>,
) -> Seq<(Seq<char>, Seq<char>)> {
    seq![
        ("tradingsymbol"@, tradingsymbol),
        ("exchange"@, exchange),
        ("transaction_type"@, side.wire_name()),
        ("order_type"@, "MARKET"@),
        ("quantity"@, decimal(quantity as nat)),
        ("product"@, product),
        ("validity"@, "DAY"@),
    ] + opt_field("tag"@, tag)
}

pub fn market_order_form(
    exchange: &str,
    tradingsymbol: &str,
    side: Side,
    quantity: u32,
    product: &str,
    tag: Option<&str>,
) -> (f: Form)
    ensures
        form_view(f@) == market_order_fields(exchange@, tradingsymbol@, side, quantity, product@, opt_view(tag)),
{
    let mut f: Form = Vec::new();
    f.push(("tradingsymbol", tradingsymbol.to_owned()));
    f.push(("exchange", exchange.to_owned()));
    f.push(("transaction_type", side.as_str().to_owned()));
    f.push(("order_type", "MARKET".to_owned()));
    f.push(("quantity", decimal_string(quantity as u64)));
    f.push(("product", product.to_owned()));
    f.push(("validity", "DAY".to_owned()));
    assert(form_view(f@) =~= market_order_fields(exchange@, tradingsymbol@, side, quantity, product@, None));
    push_opt(&mut f, "tag", tag);
    assert(form_view(f@) =~= market_order_fields(exchange@, tradingsymbol@, side, quantity, product@, opt_view(tag)));
    f
}

/// The form of a regular order of any type; prices are given as text.
pub open spec fn regular_order_fields(
    exchange: Seq<char>,
    tradingsymbol: Seq<char>,
    side: Side,
    quantity: u32,
    product: Seq<char>,
    order_type: OrderType,
    price: Option<Seq<char>>,
    trigger_price: Option<Seq<char>>,
    tag: Option<Seq<char>>,
) -> Seq<(Seq<char>, Seq<char>)> {
    seq![
        ("tradingsymbol"@, tradingsymbol),
        ("exchange"@, exchange),
        ("transaction_type"@, side.wire_name()),
        ("quantity"@, decimal(quantity as nat)),
        ("product"@, product),
        ("order_type"@, order_type.wire_name()),
        ("validity"@, "DAY"@),
    ] + opt_field("price"@, price) + opt_field("trigger_price"@, trigger_price) + opt_field("tag"@, tag)
}

pub fn regular_order_form(
    exchange: &str,
    tradingsymbol: &str,
    side: Side,
    quantity: u32,
    product: &str,
    order_type: OrderType,
    price: Option<&str>,
    trigger_price: Option<&str>,
    tag: Option<&str>,
) -> (f: Form)
    ensures
        form_view(f@) == regular_order_fields(
            exchange@,
            tradingsymbol@,
            side,
            quantity,
            product@,
            order_type,
            opt_view(price),
            opt_view(trigger_price),
            opt_view(tag),
        ),
{
    let mut f: Form = Vec::new();
    f.push(("tradingsymbol", tradingsymbol.to_owned()));
    f.push(("exchange", exchange.to_owned()));
    f.push(("transaction_type", side.as_str().to_owned()));
    f.push(("quantity", decimal_string(quantity as u64)));
    f.push(("product", product.to_owned()));
    f.push(("order_type", order_type.as_str().to_owned()));
    f.push(("validity", "DAY".to_owned()));
    push_opt(&mut f, "price", price);
    push_opt(&mut f, "trigger_price", trigger_price);
    push_opt(&mut f, "tag", tag);
    assert(form_view(f@) =~= regular_order_fields(
        exchange@,
        tradingsymbol@,
        side,
        quantity,
        product@,
        order_type,
        opt_view(price),
        opt_view(trigger_price),
        opt_view(tag),
    ));
    f
}

/// The form of a regular LIMIT order.
pub open spec fn limit_order_fields(
    exchange: Seq<char>,
    tradingsymbol: Seq<char>,
    side: Side,
    quantity: u32,
    product: Seq<char>,
    price: Seq<char>,
    tag: Option<Seq<char>>,
) -> Seq<(Seq<char>, Seq<char>)> {
    seq![
        ("tradingsymbol"@, tradingsymbol),
        ("exchange"@, exchange),
        ("transaction_type"@, side.wire_name()),
        ("order_type"@, "LIMIT"@),
        ("quantity"@, decimal(quantity as nat)),
        ("product"@, product),
        ("price"@, price),
        ("validity"@, "DAY"@),
    ] + opt_field("tag"@, tag)
}

pub fn limit_order_form(
    exchange: &str,
    tradingsymbol: &str,
    side: Side,
    quantity: u32,
    product: &str,
    price: &str,
    tag: Option<&str>,
) -> (f: Form)
    ensures
        form_view(f@) == limit_order_fields(exchange@, tradingsymbol@, side, quantity, product@, price@, opt_view(tag)),
{
    let mut f: Form = Vec::new();
    f.push(("tradingsymbol", tradingsymbol.to_owned()));
    f.push(("exchange", exchange.to_owned()));
    f.push(("transaction_type", side.as_str().to_owned()));
    f.push(("order_type", "LIMIT".to_owned()));
    f.push(("quantity", decimal_string(quantity as u64)));
    f.push(("product", product.to_owned()));
    f.push(("price", price.to_owned()));
    f.push(("validity", "DAY".to_owned()));
    push_opt(&mut f, "tag", tag);
    assert(form_view(f@) =~= limit_order_fields(exchange@, tradingsymbol@, side, quantity, product@, price@, opt_view(tag)));
    f
}

/// The form of an order of a given variety (regular, amo, co, iceberg).
pub open spec fn variety_order_fields(
    exchange: Seq<char>,
    tradingsymbol: Seq<char>,
    side: Side,
    quantity: u32,
    product: Seq<char>,
    order_type: OrderType,
    price: Option<Seq<char>>,
    trigger_price: Option<Seq<char>>,
    validity: Option<Seq<char>>,
    iceberg_legs: Option<u32>,
    iceberg_quantity: Option<u32>,
    tag: Option<Seq<char>>,
) -> Seq<(Seq<char>, Seq<char>)> {
    seq![
        ("tradingsymbol"@, tradingsymbol),
        ("exchange"@, exchange),
        ("transaction_type"@, side.wire_name()),
        ("order_type"@, order_type.wire_name()),
        ("quantity"@, decimal(quantity as nat)),
        ("product"@, product),
        ("validity"@, match validity { Some(v) => v, None => "DAY"@ }),
    ] + opt_field("price"@, price) + opt_field("trigger_price"@, trigger_price) + opt_field(
        "iceberg_legs"@,
        opt_decimal(iceberg_legs),
    ) + opt_field("iceberg_quantity"@, opt_decimal(iceberg_quantity)) + opt_field("tag"@, tag)
}

fn push_opt_number(f: &mut Form, key: &'static str, v: Option<u32>)
    ensures
        form_view(final(f)@) == form_view(old(f)@) + opt_field(key@, opt_decimal(v)),
{
    if let Some(x) = v {
        f.push((key, decimal_string(x as u64)));
    }
    assert(form_view(final(f)@) =~= form_view(old(f)@) + opt_field(key@, opt_decimal(v)));
}

pub fn variety_order_form(
    exchange: &str,
    tradingsymbol: &str,
    side: Side,
    quantity: u32,
    product: &str,
    order_type: OrderType,
    price: Option<&str>,
    trigger_price: Option<&str>,
    validity: Option<&str>,
    iceberg_legs: Option<u32>,
    iceberg_quantity: Option<u32>,
    tag: Option<&str>,
) -> (f: Form)
    ensures
        form_view(f@) == variety_order_fields(
            exchange@,
            tradingsymbol@,
            side,
            quantity,
            product@,
            order_type,
            opt_view(price),
            opt_view(trigger_price),
            opt_view(validity),
            iceberg_legs,
            iceberg_quantity,
            opt_view(tag),
        ),
{
    let mut f: Form = Vec::new();
    f.push(("tradingsymbol", tradingsymbol.to_owned()));
    f.push(("exchange", exchange.to_owned()));
    f.push(("transaction_type", side.as_str().to_owned()));
    f.push(("order_type", order_type.as_str().to_owned()));
    f.push(("quantity", decimal_string(quantity as u64)));
    f.push(("product", product.to_owned()));
    let v = match validity {
        Some(v) => v,
        None => "DAY",
    };
    f.push(("validity", v.to_owned()));
    push_opt(&mut f, "price", price);
    push_opt(&mut f, "trigger_price", trigger_price);
    push_opt_number(&mut f, "iceberg_legs", iceberg_legs);
    push_opt_number(&mut f, "iceberg_quantity", iceberg_quantity);
    push_opt(&mut f, "tag", tag);
    assert(form_view(f@) =~= variety_order_fields(
        exchange@,
        tradingsymbol@,
        side,
        quantity,
        product@,
        order_type,
        opt_view(price),
        opt_view(trigger_price),
        opt_view(validity),
        iceberg_legs,
        iceberg_quantity,
        opt_view(tag),
    ));
    f
}

/// A stoploss-market exit: a regular SELL of type SL-M with price `0` and
/// the given trigger price.
pub fn slm_exit_sell_form(
    exchange: &str,
    tradingsymbol: &str,
    quantity: u32,
    product: &str,
    trigger_price: &str,
    tag: Option<&str>,
) -> (f: Form)
    ensures
        form_view(f@) == regular_order_fields(
            exchange@,
            tradingsymbol@,
            Side::Sell,
            quantity,
            product@,
            OrderType::Slm,
            Some("0"@),
            Some(trigger_price@),
            opt_view(tag),
        ),
{
    regular_order_form(exchange, tradingsymbol, Side::Sell, quantity, product, OrderType::Slm, Some("0"), Some(trigger_price), tag)
}

/// A stoploss-limit exit: a regular SELL of type SL with a limit price and
/// a trigger price.
pub fn sl_exit_sell_form(
    exchange: &str,
    tradingsymbol: &str,
    quantity: u32,
    product: &str,
    trigger_price: &str,
    limit_price: &str,
    tag: Option<&str>,
) -> (f: Form)
    ensures
        form_view(f@) == regular_order_fields(
            exchange@,
            tradingsymbol@,
            Side::Sell,
            quantity,
            product@,
            OrderType::Sl,
            Some(limit_price@),
            Some(trigger_price@),
            opt_view(tag),
        ),
{
    regular_order_form(exchange, tradingsymbol, Side::Sell, quantity, product, OrderType::Sl, Some(limit_price), Some(trigger_price), tag)
}

/// A cover order: variety `co`, a MARKET BUY with price `0`, the stoploss
/// trigger, validity DAY.
pub fn cover_order_form(
    exchange: &str,
    tradingsymbol: &str,
    quantity: u32,
    product: &str,
    sl_trigger: &str,
    tag: Option<&str>,
) -> (r: (&'static str, Form))
    ensures
        r.0@ == "co"@,
        form_view(r.1@) == variety_order_fields(
            exchange@,
            tradingsymbol@,
            Side::Buy,
            quantity,
            product@,
            OrderType::Market,
            Some("0"@),
            Some(sl_trigger@),
            Some("DAY"@),
            None,
            None,
            opt_view(tag),
        ),
{
    let f = variety_order_form(
        exchange,
        tradingsymbol,
        Side::Buy,
        quantity,
        product,
        OrderType::Market,
        Some("0"),
        Some(sl_trigger),
        Some("DAY"),
        None,
        None,
        tag,
    );
    ("co", f)
}

/// An after-market order: variety `amo`, a LIMIT order at `price`,
/// validity DAY.
pub fn amo_limit_order_form(
    exchange: &str,
    tradingsymbol: &str,
    side: Side,
    quantity: u32,
    product: &str,
    price: &str,
    tag: Option<&str>,
) -> (r: (&'static str, Form))
    ensures
        r.0@ == "amo"@,
        form_view(r.1@) == variety_order_fields(
            exchange@,
            tradingsymbol@,
            side,
            quantity,
            product@,
            OrderType::Limit,
            Some(price@),
            None,
            Some("DAY"@),
            None,
            None,
            opt_view(tag),
        ),
{
    let f = variety_order_form(
        exchange,
        tradingsymbol,
        side,
        quantity,
        product,
        OrderType::Limit,
        Some(price),
        None,
        Some("DAY"),
        None,
        None,
        tag,
    );
    ("amo", f)
}

/// An iceberg order: variety `iceberg`, a LIMIT BUY of the whole quantity
/// at `limit_price`, validity DAY, with the number of legs and the
/// quantity of each.
pub fn iceberg_limit_buy_form(
    exchange: &str,
    tradingsymbol: &str,
    total_qty: u32,
    product: &str,
    limit_price: &str,
    iceberg_legs: u32,
    iceberg_qty: u32,
    tag: Option<&str>,
) -> (r: (&'static str, Form))
    ensures
        r.0@ == "iceberg"@,
        form_view(r.1@) == variety_order_fields(
            exchange@,
            tradingsymbol@,
            Side::Buy,
            total_qty,
            product@,
            OrderType::Limit,
            Some(limit_price@),
            None,
            Some("DAY"@),
            Some(iceberg_legs),
            Some(iceberg_qty),
            opt_view(tag),
        ),
{
    let f = variety_order_form(
        exchange,
        tradingsymbol,
        Side::Buy,
        total_qty,
        product,
        OrderType::Limit,
        Some(limit_price),
        None,
        Some("DAY"),
        Some(iceberg_legs),
        Some(iceberg_qty),
        tag,
    );
    ("iceberg", f)
}

/// Quantity of each leg of an iceberg order: the total split evenly, the
/// remainder dropped.
pub fn iceberg_leg_quantity(total_qty: u32, legs: u32) -> (q: u32)
    requires
        legs > 0,
    ensures
        q == total_qty / legs,
{
    total_qty / legs
}

/// Why an API reply was not usable.
#[derive(Debug, PartialEq, Eq)]
pub enum ReplyError {
    /// The HTTP status was not a success (2xx).
    HttpStatus(u16),
    /// A success reply lacked the named member.
    Missing(&'static str),
}

pub open spec fn success_status(status: u16) -> bool {
    200 <= status <= 299
}

/// Accepts a reply whose HTTP status is a success.
pub fn check_status(status: u16) -> (r: Result<(), ReplyError>)
    ensures
        success_status(status) ==> r is Ok,
        !success_status(status) ==> r == Err::<(), ReplyError>(ReplyError::HttpStatus(status)),
{
    if 200 <= status && status <= 299 {
        Ok(())
    } else {
        Err(ReplyError::HttpStatus(status))
    }
}

/// `data.order_id` of a reply, when it is a string.
pub open spec fn data_order_id(body: Json) -> Option<Seq<char>> {
    match body.field("data"@) {
        Some(d) => d.str_field("order_id"@),
        None => None,
    }
}

fn data_order_id_ref(body: &Json) -> (r: Option<&str>)
    ensures
        r matches Some(s) ==> data_order_id(*body) == Some(s@),
        r is None ==> data_order_id(*body) is None,
{
    match body.get("data") {
        Some(d) => d.get_str("order_id"),
        None => None,
    }
}

/// The order id of a placement reply: refused on a failed status, and
/// when the reply has no `data.order_id` string.
pub fn placed_order_id(status: u16, body: &Json) -> (r: Result<String, ReplyError>)
    ensures
        !success_status(status) ==> r == Err::<String, ReplyError>(ReplyError::HttpStatus(status)),
        success_status(status) ==> match data_order_id(*body) {
            Some(id) => r matches Ok(s) && s@ == id,
            None => r == Err::<String, ReplyError>(ReplyError::Missing("data.order_id")),
        },
{
    check_status(status)?;
    match data_order_id_ref(body) {
        Some(id) => Ok(id.to_owned()),
        None => Err(ReplyError::Missing("data.order_id")),
    }
}

/// The order id of a modify or cancel reply: `data.order_id` when present,
/// else the id the request was made for.
pub fn acknowledged_order_id(status: u16, body: &Json, order_id: &str) -> (r: Result<String, ReplyError>)
    ensures
        !success_status(status) ==> r == Err::<String, ReplyError>(ReplyError::HttpStatus(status)),
        success_status(status) ==> match data_order_id(*body) {
            Some(id) => r matches Ok(s) && s@ == id,
            None => r matches Ok(s) && s@ == order_id@,
        },
{
    check_status(status)?;
    match data_order_id_ref(body) {
        Some(id) => Ok(id.to_owned()),
        None => Ok(order_id.to_owned()),
    }
}

/// `data.trigger_id` of a GTT placement reply.
pub open spec fn data_trigger_id(body: Json) -> Option<u64> {
    match body.field("data"@) {
        Some(d) => d.u64_field("trigger_id"@),
        None => None,
    }
}

pub fn gtt_trigger_id(status: u16, body: &Json) -> (r: Result<u64, ReplyError>)
    ensures
        !success_status(status) ==> r == Err::<u64, ReplyError>(ReplyError::HttpStatus(status)),
        success_status(status) ==> match data_trigger_id(*body) {
            Some(id) => r == Ok::<u64, ReplyError>(id),
            None => r == Err::<u64, ReplyError>(ReplyError::Missing("data.trigger_id")),
        },
{
    check_status(status)?;
    let id = match body.get("data") {
        Some(d) => d.get_u64("trigger_id"),
        None => None,
    };
    match id {
        Some(i) => Ok(i),
        None => Err(ReplyError::Missing("data.trigger_id")),
    }
}

/// The latest status in an order history: the `status` string of the last
/// row.
pub open spec fn latest_status(history: Json) -> Option<Seq<char>> {
    match history.rows() {
        Some(rows) => if rows.len() > 0 {
            rows.last().str_field("status"@)
        } else {
            None
        },
        None => None,
    }
}

pub fn extract_order_status(history_json: &Json) -> (r: Option<String>)
    ensures
        r matches Some(s) ==> latest_status(*history_json) == Some(s@),
        r is None ==> latest_status(*history_json) is None,
{
    let arr = history_json.rows_ref()?;
    if arr.len() == 0 {
        return None;
    }
    let last = &arr[arr.len() - 1];
    match last.get_str("status") {
        Some(s) => Some(s.to_owned()),
        None => None,
    }
}

/// Statuses after which an order no longer changes.
pub open spec fn is_final_status(s: Seq<char>) -> bool {
    s == "COMPLETE"@ || s == "REJECTED"@ || s == "CANCELLED"@
}

pub fn final_status(s: &str) -> (r: bool)
    ensures
        r == is_final_status(s@),
{
    str_eq(s, "COMPLETE") || str_eq(s, "REJECTED") || str_eq(s, "CANCELLED")
}


/// How many times an order's status is polled after it is placed, at most.
pub const MAX_STATUS_POLLS: u32 = 10;

/// What follows one poll of an order's status.
#[derive(Debug, Clone, Copy, PartialEq, Eq, Structural)]
pub enum PollStep {
    /// The status is final: stop at once.
    Done,
    /// Wait a moment, then poll again.
    WaitAndPoll,
    /// Wait a moment; the polls are used up, so stop after it.
    WaitAndStop,
}

/// The step after the `polls_done`-th poll (counting from 1) saw `status`:
/// a final status ends the polling, any other waits, and another poll
/// follows while fewer than `MAX_STATUS_POLLS` have been made.
pub fn poll_step(polls_done: u32, status: &str) -> (r: PollStep)
    ensures
        is_final_status(status@) ==> r == PollStep::Done,
        !is_final_status(status@) && polls_done < MAX_STATUS_POLLS ==> r == PollStep::WaitAndPoll,
        !is_final_status(status@) && polls_done >= MAX_STATUS_POLLS ==> r == PollStep::WaitAndStop,
{
    if final_status(status) {
        PollStep::Done
    } else if polls_done < MAX_STATUS_POLLS {
        PollStep::WaitAndPoll
    } else {
        PollStep::WaitAndStop
    }
}

} // verus!
