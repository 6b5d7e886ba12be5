//! The instrument master: looking instruments up, picking the front-month
//! future, the selections the CLI shows, and unpacking the downloaded dump.
use vstd::prelude::*;
use std::io::Read;
use crate::text::{chars_lt, chars_of, lemma_text_lt_total, lemma_text_lt_transitive, str_eq, text_lt};

verus! {

/// One row of the instrument dump, as far as this crate reads it. The
/// expiry is a calendar day counted as chrono's `num_days_from_ce`.
#[derive(Debug)]
pub struct Instrument {
    pub instrument_token: u64,
    pub exchange_token: u64,
    pub tradingsymbol: String,
    pub name: String,
    pub expiry: Option<i32>,
    pub lot_size: u32,
    pub instrument_type: String,
    pub segment: String,
    pub exchange: String,
}

pub open spec fn is_listing(x: Instrument, exchange: Seq<char>, tradingsymbol: Seq<char>) -> bool {
    x.exchange@ == exchange && x.tradingsymbol@ == tradingsymbol
}

/// Token of the first instrument listed as `exchange:tradingsymbol`.
pub open spec fn token_of(xs: Seq<Instrument>, exchange: Seq<char>, tradingsymbol: Seq<char>) -> Option<u64>
    decreases xs.len(),
{
    if xs.len() == 0 {
        None
    } else if is_listing(xs[0], exchange, tradingsymbol) {
        Some(xs[0].instrument_token)
    } else {
        token_of(xs.drop_first(), exchange, tradingsymbol)
    }
}

pub fn find_instrument_token(instruments: &Vec<Instrument>, exchange: &str, tradingsymbol: &str) -> (r: Option<u64>)
    ensures
        r == token_of(instruments@, exchange@, tradingsymbol@),
{
    let mut i: usize = 0;
    assert(instruments@.skip(0) =~= instruments@);
    while i < instruments.len()
        invariant
            i <= instruments@.len(),
            token_of(instruments@, exchange@, tradingsymbol@) == token_of(
                instruments@.skip(i as int),
                exchange@,
                tradingsymbol@,
            ),
        decreases instruments@.len() - i,
    {
        let x = &instruments[i];
        assert(instruments@.skip(i as int).drop_first() =~= instruments@.skip(i + 1));
        assert(instruments@.skip(i as int)[0] == instruments@[i as int]);
        if str_eq(x.exchange.as_str(), exchange) && str_eq(x.tradingsymbol.as_str(), tradingsymbol) {
            return Some(x.instrument_token);
        }
        i = i + 1;
    }
    None
}

/// A NIFTY future on NFO expiring strictly after `today`.
pub open spec fn is_live_nifty_future(x: Instrument, today: int) -> bool {
    &&& x.exchange@ == "NFO"@
    &&& x.name@ == "NIFTY"@
    &&& x.instrument_type@ == "FUT"@
    &&& x.expiry matches Some(d) && d > today
}

/// `i` is the front-month future: a live NIFTY future with the earliest
/// expiry, the first in the dump among those expiring that day.
pub open spec fn is_front_month(xs: Seq<Instrument>, today: int, i: int) -> bool {
    &&& 0 <= i < xs.len()
    &&& is_live_nifty_future(xs[i], today)
    &&& forall|j: int|
        0 <= j < xs.len() && is_live_nifty_future(#[trigger] xs[j], today) ==> xs[i].expiry->0 <= xs[j].expiry->0
    &&& forall|j: int|
        0 <= j < i && is_live_nifty_future(#[trigger] xs[j], today) ==> xs[i].expiry->0 < xs[j].expiry->0
}

/// The date text (`YYYY-MM-DD`) of a day counted from the common era, as
/// chrono's `NaiveDate` displays it; none for days chrono cannot represent.
pub uninterp spec fn iso_date_text(days_from_ce: int) -> Option<Seq<char>>;

/// `NaiveDate::from_num_days_from_ce_opt`, then `to_string`; the text is
/// named by `iso_date_text`.
#[verifier::external_body]
fn iso_date(days_from_ce: i32) -> (r: Option<String>)
    ensures
        r matches Some(s) ==> iso_date_text(days_from_ce as int) == Some(s@),
        r is None ==> iso_date_text(days_from_ce as int) is None,
{
    chrono::NaiveDate::from_num_days_from_ce_opt(days_from_ce).map(|d| d.to_string())
}

/// The front-month future the CLI fetches continuous data for.
#[derive(Debug)]
pub struct FrontFuture {
    pub tradingsymbol: String,
    pub instrument_token: u64,
    pub expiry: String,
}

pub open spec fn front_future_of(x: Instrument) -> (Seq<char>, u64, Seq<char>) {
    (
        x.tradingsymbol@,
        x.instrument_token,
        match iso_date_text(x.expiry->0 as int) {
            Some(t) => t,
            None => "-"@,
        },
    )
}

fn is_nifty_future(x: &Instrument) -> (r: bool)
    ensures
        r == (x.exchange@ == "NFO"@ && x.name@ == "NIFTY"@ && x.instrument_type@ == "FUT"@),
{
    str_eq(x.exchange.as_str(), "NFO") && str_eq(x.name.as_str(), "NIFTY") && str_eq(
        x.instrument_type.as_str(),
        "FUT",
    )
}

/// The front-month NIFTY future as of `today` (a day counted as chrono's
/// `num_days_from_ce`): none exactly when no NIFTY future on NFO expires
/// after that day.
pub fn find_front_month_nifty_future(instruments: &Vec<Instrument>, today: i32) -> (r: Option<FrontFuture>)
    ensures
        r is None <==> (forall|j: int|
            0 <= j < instruments@.len() ==> !is_live_nifty_future(#[trigger] instruments@[j], today as int)),
        r matches Some(f) ==> exists|i: int|
            is_front_month(instruments@, today as int, i) && front_future_of(instruments@[i]) == (
                f.tradingsymbol@,
                f.instrument_token,
                f.expiry@,
            ),
{
    let mut best: Option<usize> = None;
    let mut i: usize = 0;
    while i < instruments.len()
        invariant
            i <= instruments@.len(),
            match best {
                None => forall|j: int| 0 <= j < i ==> !is_live_nifty_future(#[trigger] instruments@[j], today as int),
                Some(b) => b < i && is_live_nifty_future(instruments@[b as int], today as int) && (forall|j: int|
                    0 <= j < i && is_live_nifty_future(#[trigger] instruments@[j], today as int)
                        ==> instruments@[b as int].expiry->0 <= instruments@[j].expiry->0) && (forall|j: int|
                    0 <= j < b && is_live_nifty_future(#[trigger] instruments@[j], today as int)
                        ==> instruments@[b as int].expiry->0 < instruments@[j].expiry->0),
            },
        decreases instruments@.len() - i,
    {
        let x = &instruments[i];
        if is_nifty_future(x) {
            if let Some(d) = x.expiry {
                if d > today {
                    match best {
                        None => {
                            best = Some(i);
                        },
                        Some(b) => {
                            let bd = match instruments[b].expiry {
                                Some(v) => v,
                                None => d,
                            };
                            if d < bd {
                                best = Some(i);
                            }
                        },
                    }
                }
            }
        }
        i = i + 1;
    }
    match best {
        None => None,
        Some(b) => {
            let x = &instruments[b];
            let d = match x.expiry {
                Some(v) => v,
                None => 0,
            };
            let expiry = match iso_date(d) {
                Some(t) => t,
                None => "-".to_owned(),
            };
            let f = FrontFuture { tradingsymbol: x.tradingsymbol.clone(), instrument_token: x.instrument_token, expiry };
            assert(is_front_month(instruments@, today as int, b as int));
            assert(front_future_of(instruments@[b as int]) == (f.tradingsymbol@, f.instrument_token, f.expiry@));
            Some(f)
        },
    }
}

/// The decompressed content of a gzip stream, as flate2's `GzDecoder`
/// reads it to the end; none when the stream is not valid gzip.
pub uninterp spec fn gunzipped(bytes: Seq<u8>) -> Option<Seq<u8>>;

/// `flate2::read::GzDecoder::new(bytes)` read to its end; the output is
/// named by `gunzipped`.
#[verifier::external_body]
fn gunzip(bytes: &[u8]) -> (r: Option<Vec<u8>>)
    ensures
        r matches Some(v) ==> gunzipped(bytes@) == Some(v@),
        r is None ==> gunzipped(bytes@) is None,
{
    let mut gz = flate2::read::GzDecoder::new(bytes);
    let mut out = Vec::new();
    match gz.read_to_end(&mut out) {
        Ok(_) => Some(out),
        Err(_) => None,
    }
}

/// The instrument dump failed to decompress.
#[derive(Debug, Clone, Copy, PartialEq, Eq, Structural)]
pub struct GunzipError;

/// Starts with the gzip magic bytes `1f 8b`.
pub open spec fn is_gzip(bytes: Seq<u8>) -> bool {
    bytes.len() >= 2 && bytes[0] == 0x1f && bytes[1] == 0x8b
}

/// The CSV text of a downloaded dump: gunzipped when it carries the gzip
/// magic bytes, else taken as it is.
pub fn maybe_gunzip(bytes: &[u8]) -> (r: Result<Vec<u8>, GunzipError>)
    ensures
        !is_gzip(bytes@) ==> (r matches Ok(v) && v@ == bytes@),
        is_gzip(bytes@) ==> match gunzipped(bytes@) {
            Some(out) => r matches Ok(v) && v@ == out,
            None => r == Err::<Vec<u8>, GunzipError>(GunzipError),
        },
{
    if bytes.len() >= 2 && bytes[0] == 0x1f && bytes[1] == 0x8b {
        match gunzip(bytes) {
            Some(v) => Ok(v),
            None => Err(GunzipError),
        }
    } else {
        Ok(vstd::slice::slice_to_vec(bytes))
    }
}


/// Which instruments a listing shows: those on `exchange` whose other
/// named fields equal the given values.
pub struct InstrumentFilter<'a> {
    pub exchange: &'a str,
    pub name: Option<&'a str>,
    pub instrument_type: Option<&'a str>,
    pub segment: Option<&'a str>,
}

pub open spec fn field_ok(v: Seq<char>, want: Option<&str>) -> bool {
    match want {
        Some(w) => v == w@,
        None => true,
    }
}

pub open spec fn passes(x: Instrument, f: InstrumentFilter) -> bool {
    &&& x.exchange@ == f.exchange@
    &&& field_ok(x.name@, f.name)
    &&& field_ok(x.instrument_type@, f.instrument_type)
    &&& field_ok(x.segment@, f.segment)
}

fn field_matches(v: &String, want: Option<&str>) -> (r: bool)
    ensures
        r == field_ok(v@, want),
{
    match want {
        Some(w) => str_eq(v.as_str(), w),
        None => true,
    }
}

/// What a filter asks of an instrument, field by field: the exchange is
/// the filter's, and each field that the filter names (name, instrument
/// type, segment) equals the named value.
pub open spec fn agrees_with(x: Instrument, f: InstrumentFilter) -> bool {
    &&& x.exchange@ == f.exchange@
    &&& (f.name is Some ==> x.name@ == f.name->0@)
    &&& (f.instrument_type is Some ==> x.instrument_type@ == f.instrument_type->0@)
    &&& (f.segment is Some ==> x.segment@ == f.segment->0@)
}

/// An instrument passes a filter exactly when it agrees with every field
/// the filter names; in particular a filter naming a segment lets only
/// instruments of that segment through, and one naming no segment lets
/// every segment through.
pub proof fn lemma_filter_fields(x: Instrument, f: InstrumentFilter)
    ensures
        passes(x, f) <==> agrees_with(x, f),
        f.segment is Some && passes(x, f) ==> x.segment@ == f.segment->0@,
        f.name is Some && passes(x, f) ==> x.name@ == f.name->0@,
        f.instrument_type is Some && passes(x, f) ==> x.instrument_type@ == f.instrument_type->0@,
        passes(x, f) ==> x.exchange@ == f.exchange@,
{
}

pub fn passes_filter(x: &Instrument, f: &InstrumentFilter) -> (r: bool)
    ensures
        r == passes(*x, *f),
        r == agrees_with(*x, *f),
{
    str_eq(x.exchange.as_str(), f.exchange) && field_matches(&x.name, f.name) && field_matches(
        &x.instrument_type,
        f.instrument_type,
    ) && field_matches(&x.segment, f.segment)
}

/// Indices of the instruments that pass the filter, in dump order.
pub open spec fn matching_indices(xs: Seq<Instrument>, f: InstrumentFilter) -> Seq<usize>
    decreases xs.len(),
{
    if xs.len() == 0 {
        Seq::empty()
    } else if passes(xs.last(), f) {
        matching_indices(xs.drop_last(), f).push((xs.len() - 1) as usize)
    } else {
        matching_indices(xs.drop_last(), f)
    }
}

pub open spec fn min_nat(a: nat, b: nat) -> nat {
    if a < b {
        a
    } else {
        b
    }
}

/// Every index the filter selects is an index of the dump whose instrument
/// agrees with the filter, and the indices increase.
pub proof fn lemma_matching_indices_agree(xs: Seq<Instrument>, f: InstrumentFilter)
    requires
        xs.len() <= usize::MAX,
    ensures
        forall|k: int| 0 <= k < matching_indices(xs, f).len() ==> (#[trigger] matching_indices(xs, f)[k]) < xs.len()
            && agrees_with(xs[matching_indices(xs, f)[k] as int], f),
        forall|k: int, j: int| 0 <= k < j < matching_indices(xs, f).len() ==> (#[trigger] matching_indices(xs, f)[k])
            < #[trigger] matching_indices(xs, f)[j],
    decreases xs.len(),
{
    if xs.len() > 0 {
        let ys = xs.drop_last();
        lemma_matching_indices_agree(ys, f);
        let m = matching_indices(ys, f);
        let r = matching_indices(xs, f);
        lemma_filter_fields(xs.last(), f);
        assert forall|k: int| 0 <= k < r.len() implies (#[trigger] r[k]) < xs.len() && agrees_with(
            xs[r[k] as int],
            f,
        ) by {
            if k < m.len() {
                assert(r[k] == m[k]);
                assert(m[k] < ys.len());
                assert(ys[m[k] as int] == xs[m[k] as int]);
            } else {
                assert(passes(xs.last(), f));
                assert(r == m.push((xs.len() - 1) as usize));
                assert(r[k] == xs.len() - 1);
            }
        }
        assert forall|k: int, j: int| 0 <= k < j < r.len() implies (#[trigger] r[k]) < #[trigger] r[j] by {
            assert(r[k] == m[k]);
            if j < m.len() {
                assert(r[j] == m[j]);
            } else {
                assert(m[k] < ys.len());
                assert(r == m.push((xs.len() - 1) as usize));
                assert(r[j] == xs.len() - 1);
            }
        }
    }
}

/// The first `limit` instruments that pass the filter (their indices).
pub fn first_matches(instruments: &Vec<Instrument>, f: &InstrumentFilter, limit: usize) -> (r: Vec<usize>)
    ensures
        forall|k: int| 0 <= k < r@.len() ==> r@[k] < instruments@.len() && agrees_with(instruments@[#[trigger] r@[k] as int], *f),
        r@ == matching_indices(instruments@, *f).take(
            min_nat(limit as nat, matching_indices(instruments@, *f).len()) as int,
        ),
{
    let mut out: Vec<usize> = Vec::new();
    let mut i: usize = 0;
    assert(instruments@.take(0) =~= Seq::<Instrument>::empty());
    while i < instruments.len()
        invariant
            i <= instruments@.len(),
            out@ == matching_indices(instruments@.take(i as int), *f).take(
                min_nat(limit as nat, matching_indices(instruments@.take(i as int), *f).len()) as int,
            ),
        decreases instruments@.len() - i,
    {
        let ghost pre = instruments@.take(i as int);
        assert(instruments@.take(i + 1).drop_last() =~= pre);
        let ghost m = matching_indices(pre, *f);
        if passes_filter(&instruments[i], f) {
            assert(matching_indices(instruments@.take(i + 1), *f) == m.push(i));
            if out.len() < limit {
                out.push(i);
                assert(out@ =~= m.push(i).take(min_nat(limit as nat, m.len() + 1) as int));
            } else {
                assert(out@ =~= m.push(i).take(min_nat(limit as nat, m.len() + 1) as int));
            }
        }
        i = i + 1;
    }
    assert(instruments@.take(i as int) =~= instruments@);
    proof {
        assert(instruments@.len() == instruments.len());
        lemma_matching_indices_agree(instruments@, *f);
        let mi = matching_indices(instruments@, *f);
        assert forall|k: int| 0 <= k < out@.len() implies out@[k] < instruments@.len() && agrees_with(
            instruments@[#[trigger] out@[k] as int],
            *f,
        ) by {
            assert(out@[k] == mi[k]);
        }
    }
    out
}

/// Sorting rank of an expiry: no expiry sorts first.
pub open spec fn expiry_rank(x: Instrument) -> int {
    match x.expiry {
        Some(d) => d as int,
        None => -2147483649,
    }
}

/// Order of a stable sort by expiry: by expiry, then by position.
pub open spec fn sorts_before(xs: Seq<Instrument>, i: int, j: int) -> bool {
    expiry_rank(xs[i]) < expiry_rank(xs[j]) || (expiry_rank(xs[i]) == expiry_rank(xs[j]) && i < j)
}

fn rank_of(x: &Instrument) -> (r: i64)
    ensures
        r == expiry_rank(*x),
{
    match x.expiry {
        Some(d) => d as i64,
        None => -2147483649i64,
    }
}

/// The first `limit` instruments passing the filter once they are sorted
/// by expiry, keeping dump order among equal expiries (no expiry first).
pub fn earliest_expiring(instruments: &Vec<Instrument>, f: &InstrumentFilter, limit: usize) -> (r: Vec<usize>)
    ensures
        r@.len() <= limit,
        forall|k: int| 0 <= k < r@.len() ==> r@[k] < instruments@.len() && agrees_with(instruments@[#[trigger] r@[k] as int], *f),
        forall|k: int| 0 <= k < r@.len() ==> r@[k] < instruments@.len() && passes(instruments@[#[trigger] r@[k] as int], *f),
        forall|k: int| 0 <= k < r@.len() - 1 ==> sorts_before(instruments@, #[trigger] r@[k] as int, r@[k + 1] as int),
        forall|j: int|
            0 <= j < instruments@.len() && passes(#[trigger] instruments@[j], *f) ==> r@.contains(j as usize) || (
            r@.len() == limit && (limit == 0 || sorts_before(instruments@, r@.last() as int, j))),
{
    let mut out: Vec<usize> = Vec::new();
    let n = instruments.len();
    while out.len() < limit
        invariant
            n == instruments@.len(),
            out@.len() <= limit,
            forall|k: int| 0 <= k < out@.len() ==> out@[k] < n && passes(instruments@[#[trigger] out@[k] as int], *f),
            forall|k: int| 0 <= k < out@.len() - 1 ==> sorts_before(instruments@, #[trigger] out@[k] as int, out@[k + 1] as int),
            out@.len() > 0 ==> forall|j: int|
                0 <= j < n && passes(#[trigger] instruments@[j], *f) && !sorts_before(instruments@, out@.last() as int, j)
                    ==> out@.contains(j as usize),
        decreases limit - out@.len(),
    {
        let prev: Option<(i64, usize)> = if out.len() == 0 {
            None
        } else {
            let p = out[out.len() - 1];
            Some((rank_of(&instruments[p]), p))
        };
        let mut best: Option<usize> = None;
        let mut j: usize = 0;
        while j < n
            invariant
                n == instruments@.len(),
                j <= n,
                out@.len() > 0 ==> prev == Some((expiry_rank(instruments@[out@.last() as int]) as i64, out@.last())),
                out@.len() == 0 ==> prev is None,
                match best {
                    None => forall|k: int|
                        0 <= k < j && passes(#[trigger] instruments@[k], *f) ==> (out@.len() > 0 && !sorts_before(
                            instruments@,
                            out@.last() as int,
                            k,
                        )),
                    Some(b) => b < j && passes(instruments@[b as int], *f) && (out@.len() > 0 ==> sorts_before(
                        instruments@,
                        out@.last() as int,
                        b as int,
                    )) && forall|k: int|
                        0 <= k < j && passes(#[trigger] instruments@[k], *f) && (out@.len() == 0 || sorts_before(
                            instruments@,
                            out@.last() as int,
                            k,
                        )) ==> (b == k || sorts_before(instruments@, b as int, k)),
                },
            decreases n - j,
        {
            let x = &instruments[j];
            if passes_filter(x, f) {
                let r = rank_of(x);
                let after_prev = match prev {
                    None => true,
                    Some((pr, pi)) => pr < r || (pr == r && pi < j),
                };
                if after_prev {
                    match best {
                        None => {
                            best = Some(j);
                        },
                        Some(b) => {
                            let br = rank_of(&instruments[b]);
                            if r < br || (r == br && j < b) {
                                best = Some(j);
                            }
                        },
                    }
                }
            }
            j = j + 1;
        }
        match best {
            None => {
                proof {
                    assert forall|k: int|
                        0 <= k < n && passes(#[trigger] instruments@[k], *f) implies out@.contains(k as usize) || (
                        out@.len() == limit && (limit == 0 || sorts_before(instruments@, out@.last() as int, k))) by {
                        assert(out@.len() > 0 && !sorts_before(instruments@, out@.last() as int, k));
                    }
                }
                return out;
            },
            Some(b) => {
                let ghost old_out = out@;
                out.push(b);
                proof {
                    assert forall|k: int|
                        0 <= k < n && passes(#[trigger] instruments@[k], *f) && !sorts_before(
                            instruments@,
                            out@.last() as int,
                            k,
                        ) implies out@.contains(k as usize) by {
                        if k == b as int {
                            assert(out@[old_out.len() as int] == b);
                        } else if old_out.len() > 0 && !sorts_before(instruments@, old_out.last() as int, k) {
                            assert(old_out.contains(k as usize));
                            let w = choose|w: int| 0 <= w < old_out.len() && old_out[w] == k as usize;
                            assert(out@[w] == k as usize);
                        } else {
                            assert(sorts_before(instruments@, b as int, k));
                        }
                    }
                    assert forall|k: int| 0 <= k < out@.len() - 1 implies sorts_before(
                        instruments@,
                        #[trigger] out@[k] as int,
                        out@[k + 1] as int,
                    ) by {
                        if k < old_out.len() - 1 {
                            assert(out@[k] == old_out[k] && out@[k + 1] == old_out[k + 1]);
                        }
                    }
                }
            },
        }
    }
    proof {
        assert forall|k: int|
            0 <= k < n && passes(#[trigger] instruments@[k], *f) implies out@.contains(k as usize) || (
            out@.len() == limit && (limit == 0 || sorts_before(instruments@, out@.last() as int, k))) by {
        }
    }
    out
}


pub open spec fn lists_text(out: Seq<String>, v: Seq<char>) -> bool {
    exists|i: int| 0 <= i < out.len() && out[i]@ == v
}

pub open spec fn is_exchange_of(xs: Seq<Instrument>, v: Seq<char>) -> bool {
    exists|j: int| 0 <= j < xs.len() && xs[j].exchange@ == v
}

/// The exchanges present in the dump, each once, in `str` order (what
/// collecting them into a `BTreeSet` yields).
pub fn distinct_exchanges(instruments: &Vec<Instrument>) -> (r: Vec<String>)
    ensures
        forall|i: int, j: int| 0 <= i < j < r@.len() ==> text_lt(#[trigger] r@[i]@, #[trigger] r@[j]@),
        forall|i: int| 0 <= i < r@.len() ==> is_exchange_of(instruments@, (#[trigger] r@[i])@),
        forall|j: int| 0 <= j < instruments@.len() ==> lists_text(r@, (#[trigger] instruments@[j]).exchange@),
{
    let mut out: Vec<String> = Vec::new();
    let mut keys: Vec<Vec<char>> = Vec::new();
    let mut n: usize = 0;
    while n < instruments.len()
        invariant
            n <= instruments@.len(),
            keys@.len() == out@.len(),
            forall|i: int| 0 <= i < out@.len() ==> (#[trigger] keys@[i])@ == out@[i]@,
            forall|i: int, j: int| 0 <= i < j < out@.len() ==> text_lt(#[trigger] out@[i]@, #[trigger] out@[j]@),
            forall|i: int| 0 <= i < out@.len() ==> is_exchange_of(instruments@, (#[trigger] out@[i])@),
            forall|j: int| 0 <= j < n ==> lists_text(out@, (#[trigger] instruments@[j]).exchange@),
        decreases instruments@.len() - n,
    {
        let x = chars_of(instruments[n].exchange.as_str());
        let mut p: usize = 0;
        while p < keys.len() && chars_lt(&keys[p], &x)
            invariant
                p <= keys@.len(),
                keys@.len() == out@.len(),
                forall|i: int| 0 <= i < out@.len() ==> (#[trigger] keys@[i])@ == out@[i]@,
                forall|i: int| 0 <= i < p ==> text_lt((#[trigger] out@[i])@, x@),
            decreases keys@.len() - p,
        {
            p = p + 1;
        }
        let ghost old_out = out@;
        let ghost old_keys = keys@;
        let ghost xv = instruments@[n as int].exchange@;
        assert(x@ == xv);
        let same = p < keys.len() && !chars_lt(&x, &keys[p]);
        if same {
            proof {
                lemma_text_lt_total(x@, keys@[p as int]@);
                assert(out@[p as int]@ == xv);
            }
        } else {
            proof {
                if p < keys@.len() {
                    lemma_text_lt_total(x@, keys@[p as int]@);
                }
            }
            let s = instruments[n].exchange.clone();
            out.insert(p, s);
            keys.insert(p, x);
            proof {
                assert forall|i: int| 0 <= i < out@.len() implies (#[trigger] keys@[i])@ == out@[i]@ by {
                    if i > p {
                        assert(keys@[i] == old_keys[i - 1]);
                    }
                }
                assert forall|i: int, j: int| 0 <= i < j < out@.len() implies text_lt(
                    #[trigger] out@[i]@,
                    #[trigger] out@[j]@,
                ) by {
                    if j < p {
                        assert(out@[i] == old_out[i] && out@[j] == old_out[j]);
                    } else if j == p {
                        assert(out@[i] == old_out[i]);
                    } else if i == p {
                        assert(out@[j] == old_out[j - 1]);
                        if j - 1 > p {
                            lemma_text_lt_transitive(xv, old_out[p as int]@, old_out[j - 1]@);
                        }
                    } else if i < p {
                        assert(out@[i] == old_out[i] && out@[j] == old_out[j - 1]);
                    } else {
                        assert(out@[i] == old_out[i - 1] && out@[j] == old_out[j - 1]);
                    }
                }
                assert forall|i: int| 0 <= i < out@.len() implies is_exchange_of(
                    instruments@,
                    (#[trigger] out@[i])@,
                ) by {
                    if i < p {
                        assert(out@[i] == old_out[i]);
                    } else if i > p {
                        assert(out@[i] == old_out[i - 1]);
                    } else {
                        assert(instruments@[n as int].exchange@ == out@[i]@);
                    }
                }
                assert forall|j: int| 0 <= j < n implies lists_text(out@, (#[trigger] instruments@[j]).exchange@) by {
                    assert(lists_text(old_out, instruments@[j].exchange@));
                    let i0 = choose|i: int| 0 <= i < old_out.len() && old_out[i]@ == instruments@[j].exchange@;
                    if i0 < p {
                        assert(out@[i0] == old_out[i0]);
                    } else {
                        assert(out@[i0 + 1] == old_out[i0]);
                    }
                }
                assert(out@[p as int]@ == xv);
            }
        }
        assert(lists_text(out@, xv));
        n = n + 1;
    }
    out
}

} // verus!
